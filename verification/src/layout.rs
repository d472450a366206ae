//! Grid layout: equal-height thumbnails with per-window widths proportional to
//! the window's aspect ratio, packed into centred rows.
//!
//! All lengths are whole milli-points (thousandths of a point) and all
//! coordinates have a bottom-left origin, matching how the overlay is drawn.

use crate::config::Config;
use crate::state::Item;
use vstd::prelude::*;

verus! {

#[derive(Clone, Copy, PartialEq, Eq, Debug, Structural)]
pub enum Dir {
    Left,
    Right,
    Up,
    Down,
    Next,
    Prev,
}

/// An axis-parallel rectangle in milli-points.
#[derive(Clone, Copy, PartialEq, Eq, Debug, Structural)]
pub struct Rect {
    pub x: i64,
    pub y: i64,
    pub w: i64,
    pub h: i64,
}

impl Rect {
    /// The point lies in the rectangle, edges included.
    pub open spec fn covers(self, px: int, py: int) -> bool {
        self.x <= px <= self.x + self.w && self.y <= py <= self.y + self.h
    }

    pub fn contains(&self, px: i64, py: i64) -> (inside: bool)
        ensures
            inside == self.covers(px as int, py as int),
    {
        px >= self.x && px as i128 <= self.x as i128 + self.w as i128 && py >= self.y && py as i128
            <= self.y as i128 + self.h as i128
    }
}

/// Where one card is drawn: the thumbnail and the title under it.
#[derive(Clone, Copy, PartialEq, Eq, Debug, Structural)]
pub struct ItemRect {
    pub thumb: Rect,
    pub label: Rect,
}

#[derive(Debug)]
pub struct Layout {
    pub total_w: i64,
    pub total_h: i64,
    /// Row-major item indices.
    pub rows: Vec<Vec<usize>>,
    pub rects: Vec<ItemRect>,
}

/// Margin around the grid.
pub const PAD: i64 = 20_000;

/// Space between neighbouring cards.
pub const GAP: i64 = 12_000;

/// Height of the title strip under a thumbnail.
pub const LABEL_H: i64 = 24_000;

/// Narrowest card.
pub const MIN_ITEM_W: i64 = 90_000;

/// Narrowest overlay that holds a grid.
pub const MIN_OVERLAY_W: i64 = 420_000;

/// Thumbnails never start out lower than this.
pub const MIN_START_H: i64 = 80_000;

/// Thumbnails at most this high are not shrunk any further.
pub const SMALLEST_H: i64 = 70_000;

/// Size of the overlay that has nothing to show.
pub const EMPTY_W: i64 = 360_000;

pub const EMPTY_H: i64 = 84_000;

/// Bound of an overlay's width and height.
pub const MAX_EXTENT: i64 = 0x1fff_ffff_ffff_ffff;

/// The most windows a layout is asked for: window ids have 32 bits.
pub const MAX_ITEMS: u64 = 0x1_0000_0000;

// ---------- model ----------

pub open spec fn clamp_int(v: int, lo: int, hi: int) -> int {
    if v < lo {
        lo
    } else if v > hi {
        hi
    } else {
        v
    }
}

/// Card width of a window of the given aspect ratio at thumbnail height `h`.
pub open spec fn card_width(aspect: u32, h: int, avail: int) -> int {
    clamp_int(h * aspect / 1_000_000, MIN_ITEM_W as int, avail)
}

pub open spec fn card_widths(items: Seq<Item>, h: int, avail: int) -> Seq<int> {
    Seq::new(items.len(), |i: int| card_width(items[i].aspect, h, avail))
}

/// Cards `s..e` laid side by side, each followed by a gap.
pub open spec fn span(widths: Seq<int>, s: int, e: int) -> int
    decreases e - s,
{
    if e <= s {
        0
    } else {
        span(widths, s, e - 1) + widths[e - 1] + GAP
    }
}

pub open spec fn rows_view(rows: Seq<Vec<usize>>) -> Seq<Seq<usize>> {
    rows.map_values(|row: Vec<usize>| row@)
}

/// Number of items in the rows before row `r`.
pub open spec fn row_start(rows: Seq<Seq<usize>>, r: int) -> int
    decreases r,
{
    if r <= 0 {
        0
    } else {
        row_start(rows, r - 1) + rows[r - 1].len()
    }
}

/// Read row by row, the rows list the items `0..n` in order; no row is empty.
pub open spec fn rows_in_order(rows: Seq<Seq<usize>>, n: int) -> bool {
    &&& forall|r: int| 0 <= r < rows.len() ==> #[trigger] rows[r].len() > 0
    &&& forall|r: int, c: int|
        0 <= r < rows.len() && 0 <= c < rows[r].len() ==> #[trigger] rows[r][c] == row_start(
            rows,
            r,
        ) + c
    &&& row_start(rows, rows.len() as int) == n
}

/// Width of row `r` with the gaps between its cards.
pub open spec fn row_width(widths: Seq<int>, rows: Seq<Seq<usize>>, r: int) -> int {
    span(widths, row_start(rows, r), row_start(rows, r + 1)) - GAP
}

/// `rows` is the greedy packing of the cards: in order, no row wider than
/// `avail`, and every row but the first begins with a card that did not fit
/// behind the row before it.
pub open spec fn is_packing(rows: Seq<Seq<usize>>, widths: Seq<int>, avail: int) -> bool {
    &&& rows_in_order(rows, widths.len() as int)
    &&& forall|r: int| 0 <= r < rows.len() ==> #[trigger] row_width(widths, rows, r) <= avail
    &&& forall|r: int|
        0 <= r < rows.len() - 1 ==> #[trigger] row_width(widths, rows, r) + GAP
            + widths[row_start(rows, r + 1)] > avail
}

/// The greedy packing (there is exactly one, see `lemma_packing_unique`).
pub open spec fn packing(widths: Seq<int>, avail: int) -> Seq<Seq<usize>> {
    choose|rows: Seq<Seq<usize>>| is_packing(rows, widths, avail)
}

/// Height of an overlay with `n` rows of thumbnails of height `h`.
pub open spec fn overlay_height(n: int, h: int) -> int {
    2 * PAD + n * (h + LABEL_H) + (n - 1) * GAP
}

/// Width of the overlay on a screen of width `screen_w`.
pub open spec fn overlay_width(screen_w: int, frac: int) -> int {
    if screen_w * frac / 1_000_000 > MIN_OVERLAY_W {
        screen_w * frac / 1_000_000
    } else {
        MIN_OVERLAY_W as int
    }
}

/// At thumbnail height `h` the grid takes at most 86 % of the screen's height.
pub open spec fn grid_fits(items: Seq<Item>, max_w: int, screen_h: int, h: int) -> bool {
    let avail = max_w - 2 * PAD;
    overlay_height(packing(card_widths(items, h, avail), avail).len() as int, h) * 100 <= screen_h
        * 86
}

/// The thumbnail height: `h`, lowered by 8 % at a time until the grid fits or
/// the thumbnails are as small as they may get.
pub open spec fn fitted_height(items: Seq<Item>, max_w: int, screen_h: int, h: int) -> int
    decreases h,
{
    if grid_fits(items, max_w, screen_h, h) || h <= SMALLEST_H {
        h
    } else {
        fitted_height(items, max_w, screen_h, h * 92 / 100)
    }
}

pub open spec fn start_height(cfg: &Config) -> int {
    if cfg.thumb_height > MIN_START_H {
        cfg.thumb_height as int
    } else {
        MIN_START_H as int
    }
}

/// The card in column `c` of row `r`: rows are centred, the top row has the
/// largest `y`, and the bottom row's title sits `PAD` above the lower edge.
pub open spec fn card_at(
    rows: Seq<Seq<usize>>,
    widths: Seq<int>,
    max_w: int,
    h: int,
    r: int,
    c: int,
    rect: ItemRect,
) -> bool {
    let s = row_start(rows, r);
    let x = (max_w - row_width(widths, rows, r)) / 2 + span(widths, s, s + c);
    let y = PAD + LABEL_H + (rows.len() - 1 - r) * (h + LABEL_H + GAP);
    &&& rect.thumb.x == x
    &&& rect.thumb.y == y
    &&& rect.thumb.w == widths[s + c]
    &&& rect.thumb.h == h
    &&& rect.label.x == x
    &&& rect.label.y == y - LABEL_H
    &&& rect.label.w == widths[s + c]
    &&& rect.label.h == LABEL_H
}

impl Layout {
    /// The rows list the cards in order, none missing and none twice, and the
    /// cards lie inside the overlay.
    pub open spec fn wf(self) -> bool {
        &&& rows_in_order(rows_view(self.rows@), self.rects@.len() as int)
        &&& 0 <= self.total_w <= MAX_EXTENT
        &&& 0 <= self.total_h <= MAX_EXTENT
        &&& forall|i: int|
            0 <= i < self.rects@.len() ==> self.inside((#[trigger] self.rects@[i]).thumb)
                && self.inside(self.rects@[i].label)
    }

    /// The area lies inside the overlay.
    pub open spec fn inside(self, r: Rect) -> bool {
        &&& 0 <= r.x && 0 <= r.w && r.x + r.w <= self.total_w
        &&& 0 <= r.y && 0 <= r.h && r.y + r.h <= self.total_h
    }

    /// This is the grid of the cards `widths` at thumbnail height `h`.
    pub open spec fn is_grid(self, widths: Seq<int>, max_w: int, h: int) -> bool {
        let rows = rows_view(self.rows@);
        &&& is_packing(rows, widths, max_w - 2 * PAD)
        &&& self.total_w == max_w
        &&& self.total_h == overlay_height(rows.len() as int, h)
        &&& self.rects@.len() == widths.len()
        &&& forall|r: int, c: int|
            0 <= r < rows.len() && 0 <= c < rows[r].len() ==> card_at(
                rows,
                widths,
                max_w,
                h,
                r,
                c,
                self.rects@[#[trigger] rows[r][c] as int],
            )
    }

    /// This is the layout of `items` on a screen of the given size.
    pub open spec fn lays_out(
        self,
        items: Seq<Item>,
        screen_w: i32,
        screen_h: i32,
        cfg: &Config,
    ) -> bool {
        if items.len() == 0 {
            &&& self.total_w == EMPTY_W
            &&& self.total_h == EMPTY_H
            &&& self.rows@.len() == 0
            &&& self.rects@.len() == 0
        } else {
            let max_w = overlay_width(screen_w as int, cfg.max_width_frac as int);
            let h = fitted_height(items, max_w, screen_h as int, start_height(cfg));
            self.is_grid(card_widths(items, h, max_w - 2 * PAD), max_w, h)
        }
    }
}

// ---------- rows ----------

proof fn lemma_row_start_push(rows: Seq<Seq<usize>>, row: Seq<usize>, r: int)
    requires
        0 <= r <= rows.len(),
    ensures
        row_start(rows.push(row), r) == row_start(rows, r),
    decreases r,
{
    if r > 0 {
        lemma_row_start_push(rows, row, r - 1);
    }
}

proof fn lemma_row_start_mono(rows: Seq<Seq<usize>>, a: int, b: int)
    requires
        0 <= a <= b <= rows.len(),
        forall|r: int| 0 <= r < rows.len() ==> #[trigger] rows[r].len() > 0,
    ensures
        row_start(rows, a) + (b - a) <= row_start(rows, b),
    decreases b - a,
{
    if a < b {
        lemma_row_start_mono(rows, a, b - 1);
        assert(rows[b - 1].len() > 0);
    }
}

/// Two row lists that agree on the first `r` rows place row `r` alike.
proof fn lemma_row_start_same(a: Seq<Seq<usize>>, b: Seq<Seq<usize>>, r: int)
    requires
        0 <= r <= a.len(),
        r <= b.len(),
        forall|k: int| 0 <= k < r ==> #[trigger] a[k].len() == b[k].len(),
    ensures
        row_start(a, r) == row_start(b, r),
    decreases r,
{
    if r > 0 {
        lemma_row_start_same(a, b, r - 1);
        assert(a[r - 1].len() == b[r - 1].len());
    }
}

/// A longer run of cards is wider.
proof fn lemma_span_mono(widths: Seq<int>, s: int, m: int, e: int)
    requires
        0 <= s <= m <= e <= widths.len(),
        forall|i: int| 0 <= i < widths.len() ==> #[trigger] widths[i] >= 0,
    ensures
        0 <= span(widths, s, m) <= span(widths, s, e),
        span(widths, s, e) >= (e - s) * GAP,
    decreases e - s,
{
    if m < e {
        lemma_span_mono(widths, s, m, e - 1);
    } else if s < m {
        lemma_span_mono(widths, s, m - 1, m - 1);
    }
}

/// Of two packings that have placed the same cards, neither takes fewer cards
/// into the next row.
proof fn lemma_same_next_row(
    a: Seq<Seq<usize>>,
    b: Seq<Seq<usize>>,
    widths: Seq<int>,
    avail: int,
    r: int,
)
    requires
        is_packing(a, widths, avail),
        is_packing(b, widths, avail),
        forall|i: int| 0 <= i < widths.len() ==> #[trigger] widths[i] >= 0,
        0 <= r < a.len(),
        r < b.len(),
        row_start(a, r) == row_start(b, r),
    ensures
        a[r].len() >= b[r].len(),
{
    let s = row_start(a, r);
    let e = row_start(a, r + 1);
    let f = row_start(b, r + 1);
    assert(e == s + a[r].len());
    assert(f == s + b[r].len());
    lemma_row_start_mono(b, 0, r);
    lemma_row_start_mono(b, r + 1, b.len() as int);
    lemma_row_start_mono(a, r + 1, a.len() as int);
    if a[r].len() < b[r].len() && r + 1 < a.len() {
        assert(row_width(widths, a, r) + GAP + widths[e] > avail);
        assert(row_width(widths, b, r) <= avail);
        assert(span(widths, s, e + 1) == span(widths, s, e) + widths[e] + GAP);
        lemma_span_mono(widths, s, e + 1, f);
    }
}

/// There is at most one greedy packing.
pub proof fn lemma_packing_unique(
    a: Seq<Seq<usize>>,
    b: Seq<Seq<usize>>,
    widths: Seq<int>,
    avail: int,
)
    requires
        is_packing(a, widths, avail),
        is_packing(b, widths, avail),
        forall|i: int| 0 <= i < widths.len() ==> #[trigger] widths[i] >= 0,
    ensures
        a == b,
{
    let m = if a.len() <= b.len() {
        a.len()
    } else {
        b.len()
    };
    lemma_same_prefix(a, b, widths, avail, m as int);
    lemma_row_start_same(a, b, m as int);
    lemma_row_start_mono(a, m as int, a.len() as int);
    lemma_row_start_mono(b, m as int, b.len() as int);
    assert(a.len() == b.len());
    assert forall|r: int| 0 <= r < a.len() implies a[r] == b[r] by {
        lemma_row_start_same(a, b, r);
        assert(a[r].len() == b[r].len());
        assert forall|c: int| 0 <= c < a[r].len() implies a[r][c] == b[r][c] by {}
        assert(a[r] =~= b[r]);
    }
    assert(a =~= b);
}

proof fn lemma_same_prefix(
    a: Seq<Seq<usize>>,
    b: Seq<Seq<usize>>,
    widths: Seq<int>,
    avail: int,
    r: int,
)
    requires
        is_packing(a, widths, avail),
        is_packing(b, widths, avail),
        forall|i: int| 0 <= i < widths.len() ==> #[trigger] widths[i] >= 0,
        0 <= r <= a.len(),
        r <= b.len(),
    ensures
        forall|k: int| 0 <= k < r ==> #[trigger] a[k].len() == b[k].len(),
    decreases r,
{
    if r > 0 {
        lemma_same_prefix(a, b, widths, avail, r - 1);
        lemma_row_start_same(a, b, r - 1);
        lemma_same_next_row(a, b, widths, avail, r - 1);
        lemma_same_next_row(b, a, widths, avail, r - 1);
    }
}

// ---------- packing ----------

fn item_w(item: &Item, h: i64, avail: i64) -> (w: i64)
    requires
        0 <= h <= i32::MAX,
        MIN_ITEM_W <= avail,
    ensures
        w == card_width(item.aspect, h as int, avail as int),
        MIN_ITEM_W <= w <= avail,
{
    proof {
        assert(0 <= h * item.aspect <= 0x7fff_ffff * 0xffff_ffff) by (nonlinear_arith)
            requires
                0 <= h <= 0x7fff_ffff,
                0 <= item.aspect <= 0xffff_ffff,
        ;
    }
    let raw: i64 = h * (item.aspect as i64) / 1_000_000;
    if raw < MIN_ITEM_W {
        MIN_ITEM_W
    } else if raw > avail {
        avail
    } else {
        raw
    }
}

proof fn lemma_packing_push(
    rows: Seq<Seq<usize>>,
    row: Seq<usize>,
    widths: Seq<int>,
    avail: int,
    n: int,
)
    requires
        rows_in_order(rows, n),
        row.len() > 0,
        forall|c: int| 0 <= c < row.len() ==> #[trigger] row[c] == n + c,
        forall|r: int| 0 <= r < rows.len() ==> #[trigger] row_width(widths, rows, r) <= avail,
        span(widths, n, n + row.len()) - GAP <= avail,
        forall|r: int|
            0 <= r < rows.len() - 1 ==> #[trigger] row_width(widths, rows, r) + GAP
                + widths[row_start(rows, r + 1)] > avail,
        rows.len() > 0 ==> row_width(widths, rows, rows.len() - 1) + GAP + widths[n] > avail,
    ensures
        rows_in_order(rows.push(row), n + row.len()),
        forall|r: int|
            0 <= r < rows.len() + 1 ==> #[trigger] row_width(widths, rows.push(row), r) <= avail,
        forall|r: int|
            0 <= r < rows.len() ==> #[trigger] row_width(widths, rows.push(row), r) + GAP
                + widths[row_start(rows.push(row), r + 1)] > avail,
{
    let p = rows.push(row);
    assert forall|r: int| 0 <= r <= rows.len() implies #[trigger] row_start(p, r) == row_start(
        rows,
        r,
    ) by {
        lemma_row_start_push(rows, row, r);
    }
    assert(row_start(p, rows.len() as int) == n);
    assert(row_start(p, p.len() as int) == n + row.len());
    assert forall|r: int, c: int| 0 <= r < p.len() && 0 <= c < p[r].len() implies #[trigger] p[r][c]
        == row_start(p, r) + c by {
        if r < rows.len() {
            assert(p[r] == rows[r]);
            assert(rows[r][c] == row_start(rows, r) + c);
        } else {
            assert(p[r] == row);
        }
    }
    assert forall|r: int| 0 <= r < p.len() implies #[trigger] row_width(widths, p, r) <= avail by {
        if r < rows.len() {
            assert(row_start(p, r) == row_start(rows, r));
            assert(row_start(p, r + 1) == row_start(rows, r + 1));
            assert(row_width(widths, p, r) == row_width(widths, rows, r));
        } else {
            assert(row_width(widths, p, r) == span(widths, n, n + row.len()) - GAP);
        }
    }
    assert forall|r: int| 0 <= r < rows.len() implies #[trigger] row_width(widths, p, r) + GAP
        + widths[row_start(p, r + 1)] > avail by {
        assert(row_start(p, r) == row_start(rows, r));
        assert(row_start(p, r + 1) == row_start(rows, r + 1));
        assert(row_width(widths, p, r) == row_width(widths, rows, r));
    }
}

/// Pack the cards greedily into rows of at most `avail`.
pub fn pack(items: &Vec<Item>, avail: i64, h: i64) -> (rows: Vec<Vec<usize>>)
    requires
        0 <= h <= i32::MAX,
        MIN_ITEM_W <= avail <= i64::MAX / 4,
    ensures
        is_packing(
            rows_view(rows@),
            card_widths(items@, h as int, avail as int),
            avail as int,
        ),
{
    let ghost widths = card_widths(items@, h as int, avail as int);
    let mut rows: Vec<Vec<usize>> = Vec::new();
    let mut cur: Vec<usize> = Vec::new();
    let mut cur_w: i64 = 0;
    let ghost mut start: int = 0;
    let mut i: usize = 0;
    proof {
        assert(rows_view(rows@) =~= Seq::<Seq<usize>>::empty());
    }
    while i < items.len()
        invariant
            0 <= i <= items.len(),
            0 <= h <= i32::MAX,
            MIN_ITEM_W <= avail <= i64::MAX / 4,
            widths == card_widths(items@, h as int, avail as int),
            start == i - cur.len(),
            rows_in_order(rows_view(rows@), start),
            forall|c: int| 0 <= c < cur@.len() ==> #[trigger] cur@[c] == start + c,
            cur.len() == 0 ==> i == 0 && cur_w == 0 && rows.len() == 0,
            cur.len() > 0 ==> cur_w == span(widths, start, i as int) - GAP && 0 < cur_w <= avail,
            forall|r: int|
                0 <= r < rows.len() ==> #[trigger] row_width(widths, rows_view(rows@), r) <= avail,
            forall|r: int|
                0 <= r < rows.len() - 1 ==> #[trigger] row_width(widths, rows_view(rows@), r) + GAP
                    + widths[row_start(rows_view(rows@), r + 1)] > avail,
            rows.len() > 0 ==> cur.len() > 0 && row_width(
                widths,
                rows_view(rows@),
                rows.len() - 1,
            ) + GAP + widths[start] > avail,
        decreases items.len() - i,
    {
        let w = item_w(&items[i], h, avail);
        assert(w == widths[i as int]);
        if cur.len() > 0 && cur_w + GAP + w > avail {
            let mut next: Vec<usize> = Vec::new();
            next.push(i);
            let ghost before = rows_view(rows@);
            proof {
                lemma_packing_push(before, cur@, widths, avail as int, start);
                lemma_row_start_push(before, cur@, before.len() as int);
            }
            rows.push(cur);
            proof {
                assert(rows_view(rows@) =~= before.push(cur@));
                start = i as int;
                assert(span(widths, start, start + 1) == span(widths, start, start) + widths[start]
                    + GAP);
            }
            cur = next;
            cur_w = w;
        } else {
            cur_w = if cur.len() == 0 {
                w
            } else {
                cur_w + GAP + w
            };
            proof {
                assert(span(widths, start, i + 1) == span(widths, start, i as int)
                    + widths[i as int] + GAP);
            }
            cur.push(i);
        }
        i += 1;
    }
    if cur.len() > 0 {
        let ghost before = rows_view(rows@);
        proof {
            lemma_packing_push(before, cur@, widths, avail as int, start);
        }
        rows.push(cur);
        proof {
            assert(rows_view(rows@) =~= before.push(cur@));
        }
    }
    rows
}

/// Place the packed cards: each row centred, the top row highest.
fn build(items: &Vec<Item>, rows: Vec<Vec<usize>>, max_w: i64, h: i64) -> (layout: Layout)
    requires
        0 <= h <= i32::MAX,
        MIN_OVERLAY_W <= max_w <= i64::MAX / 4,
        rows@.len() > 0,
        is_packing(
            rows_view(rows@),
            card_widths(items@, h as int, max_w - 2 * PAD),
            max_w - 2 * PAD,
        ),
        overlay_height(rows@.len() as int, h as int) <= i64::MAX / 4,
    ensures
        layout.is_grid(card_widths(items@, h as int, max_w - 2 * PAD), max_w as int, h as int),
        0 <= layout.total_h <= MAX_EXTENT,
{
    let n_rows: usize = rows.len();
    let ghost rv = rows_view(rows@);
    let ghost widths = card_widths(items@, h as int, max_w - 2 * PAD);
    proof {
        assert(n_rows <= n_rows * (h + LABEL_H)) by (nonlinear_arith)
            requires
                h >= 0,
        ;
    }
    let total_h: i64 = PAD * 2 + (n_rows as i64) * (h + LABEL_H) + (n_rows as i64 - 1) * GAP;
    let avail: i64 = max_w - PAD * 2;
    let mut rects: Vec<ItemRect> = Vec::new();
    let mut r: usize = 0;
    while r < n_rows
        invariant
            0 <= r <= n_rows,
            n_rows == rows.len(),
            0 <= h <= i32::MAX,
            MIN_OVERLAY_W <= max_w <= i64::MAX / 4,
            avail == max_w - 2 * PAD,
            rv == rows_view(rows@),
            widths == card_widths(items@, h as int, avail as int),
            is_packing(rv, widths, avail as int),
            total_h == overlay_height(n_rows as int, h as int),
            total_h <= i64::MAX / 4,
            rects.len() == row_start(rv, r as int),
            forall|q: int, c: int|
                0 <= q < r && 0 <= c < rv[q].len() ==> #[trigger] rv[q][c] < rects.len()
                    && card_at(rv, widths, max_w as int, h as int, q, c, rects@[rv[q][c] as int]),
        decreases n_rows - r,
    {
        let row = &rows[r];
        let ghost s = row_start(rv, r as int);
        proof {
            assert(rv[r as int] == row@);
            lemma_row_start_mono(rv, r + 1, n_rows as int);
            lemma_row_start_mono(rv, 0, r as int);
            assert(row_start(rv, r + 1) == s + row@.len());
            assert(row_width(widths, rv, r as int) <= avail);
        }
        let mut row_w: i64 = 0;
        let mut k: usize = 0;
        while k < row.len()
            invariant
                0 <= k <= row.len(),
                0 <= s,
                s + row@.len() <= items.len(),
                forall|c: int| 0 <= c < row@.len() ==> #[trigger] row@[c] == s + c,
                0 <= h <= i32::MAX,
                MIN_ITEM_W <= avail <= i64::MAX / 4,
                widths == card_widths(items@, h as int, avail as int),
                row_w == span(widths, s, s + k),
                span(widths, s, s + row@.len()) - GAP <= avail,
            decreases row.len() - k,
        {
            let w = item_w(&items[row[k]], h, avail);
            proof {
                assert(w == widths[s + k]);
                assert(span(widths, s, s + k + 1) == span(widths, s, s + k) + widths[s + k] + GAP);
                lemma_span_mono(widths, s, s + k + 1, s + row@.len());
                lemma_span_mono(widths, s, s + k, s + row@.len());
            }
            row_w = row_w + (w + GAP);
            k += 1;
        }
        proof {
            lemma_span_mono(widths, s, s + row@.len(), s + row@.len());
            assert((row@.len() as int) * GAP >= GAP) by (nonlinear_arith)
                requires
                    row@.len() >= 1,
                    GAP >= 0,
            ;
        }
        row_w = row_w - GAP;
        let left: i64 = (max_w - row_w) / 2;
        let rows_below: i64 = (n_rows - 1 - r) as i64;
        proof {
            assert(0 <= rows_below * (h + LABEL_H + GAP) <= n_rows * (h + LABEL_H) + (n_rows - 1)
                * GAP) by (nonlinear_arith)
                requires
                    0 <= rows_below <= n_rows - 1,
                    h >= 0,
            ;
        }
        let thumb_y: i64 = PAD + LABEL_H + rows_below * (h + LABEL_H + GAP);
        let mut x: i64 = left;
        let mut c: usize = 0;
        while c < row.len()
            invariant
                0 <= c <= row.len(),
                r < n_rows,
                n_rows == rv.len(),
                rv[r as int] == row@,
                s == row_start(rv, r as int),
                0 <= s,
                s + row@.len() <= items.len(),
                forall|j: int| 0 <= j < row@.len() ==> #[trigger] row@[j] == s + j,
                0 <= h <= i32::MAX,
                MIN_ITEM_W <= avail <= i64::MAX / 4,
                avail == max_w - 2 * PAD,
                widths == card_widths(items@, h as int, avail as int),
                row_w == row_width(widths, rv, r as int),
                row_width(widths, rv, r as int) == span(widths, s, s + row@.len()) - GAP,
                0 <= row_w <= avail,
                left == (max_w - row_w) / 2,
                x == left + span(widths, s, s + c),
                thumb_y == PAD + LABEL_H + (n_rows - 1 - r) * (h + LABEL_H + GAP),
                0 <= thumb_y - LABEL_H,
                rects.len() == s + c,
                forall|q: int, j: int|
                    0 <= q < r && 0 <= j < rv[q].len() ==> #[trigger] rv[q][j] < s && card_at(
                        rv,
                        widths,
                        max_w as int,
                        h as int,
                        q,
                        j,
                        rects@[rv[q][j] as int],
                    ),
                forall|j: int|
                    0 <= j < c ==> #[trigger] rv[r as int][j] == s + j && card_at(
                        rv,
                        widths,
                        max_w as int,
                        h as int,
                        r as int,
                        j,
                        rects@[s + j],
                    ),
            decreases row.len() - c,
        {
            let w = item_w(&items[row[c]], h, avail);
            proof {
                assert(w == widths[s + c]);
                assert(span(widths, s, s + c + 1) == span(widths, s, s + c) + widths[s + c] + GAP);
                lemma_span_mono(widths, s, s + c + 1, s + row@.len());
                lemma_span_mono(widths, s, s + c, s + row@.len());
            }
            let ghost placed = rects@;
            rects.push(
                ItemRect {
                    thumb: Rect { x, y: thumb_y, w, h },
                    label: Rect { x, y: thumb_y - LABEL_H, w, h: LABEL_H },
                },
            );
            proof {
                assert(card_at(rv, widths, max_w as int, h as int, r as int, c as int, rects@[s + c]));
                assert forall|j: int| 0 <= j < c + 1 implies #[trigger] rv[r as int][j] == s + j
                    && card_at(
                    rv,
                    widths,
                    max_w as int,
                    h as int,
                    r as int,
                    j,
                    rects@[s + j],
                ) by {
                    assert(row@[j] == s + j);
                    if j < c {
                        assert(rv[r as int][j] == s + j);
                        assert(rects@[s + j] == placed[s + j]);
                    }
                }
            }
            x = x + (w + GAP);
            c += 1;
        }
        r += 1;
    }
    Layout { total_w: max_w, total_h, rows, rects }
}

/// Width of the overlay: the configured share of the screen's width.
fn screen_share(screen_w: i32, frac: u32) -> (w: i64)
    ensures
        w == overlay_width(screen_w as int, frac as int),
        MIN_OVERLAY_W <= w <= 0x7fff_ffff * 4295,
{
    if screen_w <= 0 {
        proof {
            assert(screen_w * frac <= 0) by (nonlinear_arith)
                requires
                    screen_w <= 0,
                    frac >= 0,
            ;
        }
        return MIN_OVERLAY_W;
    }
    proof {
        assert(0 <= screen_w * frac <= 0x7fff_ffff * 0xffff_ffff) by (nonlinear_arith)
            requires
                0 <= screen_w <= 0x7fff_ffff,
                0 <= frac <= 0xffff_ffff,
        ;
    }
    let share: i64 = (screen_w as i64) * (frac as i64) / 1_000_000;
    if share > MIN_OVERLAY_W {
        share
    } else {
        MIN_OVERLAY_W
    }
}

/// Lay out `items` on a screen of the given size.
pub fn compute(items: &Vec<Item>, screen_w: i32, screen_h: i32, cfg: &Config) -> (layout: Layout)
    requires
        items@.len() <= MAX_ITEMS,
    ensures
        layout.lays_out(items@, screen_w, screen_h, cfg),
        layout.wf(),
        layout.rects@.len() == items@.len(),
{
    if items.len() == 0 {
        let layout = Layout {
            total_w: EMPTY_W,
            total_h: EMPTY_H,
            rows: Vec::new(),
            rects: Vec::new(),
        };
        proof {
            assert(rows_view(layout.rows@) =~= Seq::<Seq<usize>>::empty());
        }
        return layout;
    }
    let max_w = screen_share(screen_w, cfg.max_width_frac);
    let avail: i64 = max_w - PAD * 2;
    let mut h: i64 = if (cfg.thumb_height as i64) > MIN_START_H {
        cfg.thumb_height as i64
    } else {
        MIN_START_H
    };
    loop
        invariant
            items@.len() > 0,
            items@.len() <= MAX_ITEMS,
            max_w == overlay_width(screen_w as int, cfg.max_width_frac as int),
            MIN_OVERLAY_W <= max_w <= 0x7fff_ffff * 4295,
            avail == max_w - 2 * PAD,
            0 < h <= i32::MAX,
            fitted_height(items@, max_w as int, screen_h as int, start_height(cfg))
                == fitted_height(items@, max_w as int, screen_h as int, h as int),
        decreases h,
    {
        let rows = pack(items, avail, h);
        let ghost widths = card_widths(items@, h as int, avail as int);
        proof {
            lemma_packing_unique(
                packing(widths, avail as int),
                rows_view(rows@),
                widths,
                avail as int,
            );
            let rv = rows_view(rows@);
            lemma_row_start_mono(rv, 0, rv.len() as int);
            assert(rv.len() > 0);
            assert(0 <= rows@.len() * (h + LABEL_H) <= 0x1_0000_0000 * (0x7fff_ffff + 24_000))
                by (nonlinear_arith)
                requires
                    0 <= rows@.len() <= 0x1_0000_0000,
                    0 <= h <= 0x7fff_ffff,
                    LABEL_H == 24_000,
            ;
        }
        let n: i128 = rows.len() as i128;
        let total_h: i128 = (PAD * 2) as i128 + n * ((h + LABEL_H) as i128) + (n - 1) * (
        GAP as i128);
        if total_h * 100 <= (screen_h as i128) * 86 || h <= SMALLEST_H {
            proof {
                if h <= SMALLEST_H {
                    assert(rows@.len() * (h + LABEL_H) <= 0x1_0000_0000 * 94_000)
                        by (nonlinear_arith)
                        requires
                            0 <= rows@.len() <= 0x1_0000_0000,
                            0 <= h + LABEL_H <= 94_000,
                    ;
                }
            }
            let layout = build(items, rows, max_w, h);
            proof {
                assert(layout.lays_out(items@, screen_w, screen_h, cfg));
                assert forall|i: int| 0 <= i < layout.rects@.len() implies layout.inside(
                    (#[trigger] layout.rects@[i]).thumb,
                ) && layout.inside(layout.rects@[i].label) by {
                    crate::layout_laws::law_cards_inside_margin(
                        layout,
                        items@,
                        screen_w,
                        screen_h,
                        cfg,
                        i,
                    );
                }
            }
            return layout;
        }
        h = h * 92 / 100;
    }
}

// ---------- navigation ----------

/// Twice the horizontal centre of a card (whole numbers only).
pub open spec fn centre2(rect: ItemRect) -> int {
    2 * rect.thumb.x + rect.thumb.w
}

/// Horizontal distance between the centres of two cards, in whole milli-points.
pub open spec fn centre_distance(a: ItemRect, b: ItemRect) -> int {
    if centre2(a) >= centre2(b) {
        (centre2(a) - centre2(b)) / 2
    } else {
        (centre2(b) - centre2(a)) / 2
    }
}

impl Layout {
    /// Item `idx` stands in column `c` of row `r`.
    pub open spec fn at(self, r: int, c: int, idx: usize) -> bool {
        0 <= r < self.rows@.len() && 0 <= c < self.rows@[r]@.len() && self.rows@[r]@[c] == idx
    }

    /// `pos` is the first place of `idx`, or the origin when it has none.
    pub open spec fn is_pos(self, idx: usize, pos: (usize, usize)) -> bool {
        if exists|r: int, c: int| self.at(r, c, idx) {
            &&& self.at(pos.0 as int, pos.1 as int, idx)
            &&& forall|r: int, c: int|
                self.at(r, c, idx) ==> pos.0 < r || (pos.0 == r && pos.1 <= c)
        } else {
            pos == (0usize, 0usize)
        }
    }

    pub open spec fn pos(self, idx: usize) -> (usize, usize) {
        choose|pos: (usize, usize)| self.is_pos(idx, pos)
    }

    /// `to` is the first item of row `r` whose centre is closest to `idx`'s.
    pub open spec fn is_nearest(self, r: int, idx: usize, to: usize) -> bool {
        let row = self.rows@[r]@;
        exists|c: int|
            {
                &&& 0 <= c < row.len()
                &&& to == #[trigger] row[c]
                &&& forall|k: int|
                    0 <= k < row.len() ==> centre_distance(self.rects@[to as int], self.rects@[idx as int])
                        <= centre_distance(self.rects@[#[trigger] row[k] as int], self.rects@[idx as int])
                &&& forall|k: int|
                    0 <= k < c ==> centre_distance(self.rects@[to as int], self.rects@[idx as int])
                        < centre_distance(self.rects@[#[trigger] row[k] as int], self.rects@[idx as int])
            }
    }

    /// The row above `r`, at the top edge the last row (wrapping) or `r`.
    pub open spec fn row_above(self, r: int, wrap: bool) -> int {
        if r > 0 {
            r - 1
        } else if wrap {
            self.rows@.len() - 1
        } else {
            r
        }
    }

    /// The row below `r`, at the bottom edge the first row (wrapping) or `r`.
    pub open spec fn row_below(self, r: int, wrap: bool) -> int {
        if r + 1 < self.rows@.len() {
            r + 1
        } else if wrap {
            0
        } else {
            r
        }
    }

    /// A step in direction `dir` leads from item `idx` to item `to`.
    pub open spec fn leads_to(self, idx: usize, dir: Dir, wrap: bool, to: usize) -> bool {
        let n = self.rects@.len() as int;
        let r = self.pos(idx).0 as int;
        let c = self.pos(idx).1 as int;
        let row = self.rows@[r]@;
        if n == 0 {
            to == idx
        } else {
            match dir {
                Dir::Next => to == (idx + 1) % n,
                Dir::Prev => to == (idx + n - 1) % n,
                Dir::Left => if row.len() <= 1 {
                    to == idx
                } else if c > 0 {
                    to == row[c - 1]
                } else if wrap {
                    to == row.last()
                } else {
                    to == idx
                },
                Dir::Right => if row.len() <= 1 {
                    to == idx
                } else if c + 1 < row.len() {
                    to == row[c + 1]
                } else if wrap {
                    to == row[0]
                } else {
                    to == idx
                },
                Dir::Up => if self.row_above(r, wrap) == r {
                    to == idx
                } else {
                    self.is_nearest(self.row_above(r, wrap), idx, to)
                },
                Dir::Down => if self.row_below(r, wrap) == r {
                    to == idx
                } else {
                    self.is_nearest(self.row_below(r, wrap), idx, to)
                },
            }
        }
    }

    /// Row and column of item `idx`.
    pub fn pos_of(&self, idx: usize) -> (pos: (usize, usize))
        ensures
            self.is_pos(idx, pos),
            pos == self.pos(idx),
    {
        let mut r: usize = 0;
        while r < self.rows.len()
            invariant
                0 <= r <= self.rows.len(),
                forall|q: int, c: int| self.at(q, c, idx) ==> r <= q,
            decreases self.rows.len() - r,
        {
            let row = &self.rows[r];
            let mut c: usize = 0;
            while c < row.len()
                invariant
                    0 <= c <= row.len(),
                    0 <= r < self.rows.len(),
                    row@ == self.rows@[r as int]@,
                    forall|q: int, k: int| self.at(q, k, idx) ==> r < q || (r == q && c <= k),
                decreases row.len() - c,
            {
                if row[c] == idx {
                    assert(self.at(r as int, c as int, idx));
                    assert(self.is_pos(idx, (r, c)));
                    return (r, c);
                }
                c += 1;
            }
            r += 1;
        }
        assert(self.is_pos(idx, (0, 0)));
        (0, 0)
    }

    proof fn lemma_row_in_order(self, r: int)
        requires
            self.wf(),
            0 <= r < self.rows@.len(),
        ensures
            self.rows@[r]@.len() > 0,
            0 <= row_start(rows_view(self.rows@), r),
            row_start(rows_view(self.rows@), r) + self.rows@[r]@.len() <= self.rects@.len(),
            forall|c: int|
                0 <= c < self.rows@[r]@.len() ==> #[trigger] self.rows@[r]@[c] == row_start(
                    rows_view(self.rows@),
                    r,
                ) + c,
    {
        let rv = rows_view(self.rows@);
        lemma_row_start_mono(rv, 0, r);
        lemma_row_start_mono(rv, r + 1, rv.len() as int);
        assert(rv[r] == self.rows@[r]@);
        assert forall|c: int| 0 <= c < self.rows@[r]@.len() implies #[trigger] self.rows@[r]@[c]
            == row_start(rv, r) + c by {
            assert(rv[r][c] == row_start(rv, r) + c);
        }
    }

    /// Move from `idx` in direction `dir`, wrapping at the grid's edges.
    pub fn nav(&self, idx: usize, dir: Dir, wrap: bool) -> (to: usize)
        requires
            self.wf(),
            dir is Next ==> idx < usize::MAX,
            dir is Up && self.rects@.len() > 0 && self.row_above(self.pos(idx).0 as int, wrap)
                != self.pos(idx).0 ==> idx < self.rects@.len(),
            dir is Down && self.rects@.len() > 0 && self.row_below(self.pos(idx).0 as int, wrap)
                != self.pos(idx).0 ==> idx < self.rects@.len(),
        ensures
            self.leads_to(idx, dir, wrap, to),
            idx < self.rects@.len() ==> to < self.rects@.len(),
    {
        if self.rects.len() == 0 {
            return idx;
        }
        let n = self.rects.len();
        match dir {
            Dir::Next => (idx + 1) % n,
            Dir::Prev => {
                if idx == 0 {
                    proof {
                        vstd::arithmetic::div_mod::lemma_small_mod((n - 1) as nat, n as nat);
                    }
                    n - 1
                } else {
                    proof {
                        vstd::arithmetic::div_mod::lemma_mod_add_multiples_vanish(
                            idx - 1,
                            n as int,
                        );
                    }
                    (idx - 1) % n
                }
            },
            Dir::Left | Dir::Right => {
                let (r, c) = self.pos_of(idx);
                proof {
                    self.lemma_pos_in_range(idx);
                    self.lemma_row_in_order(r as int);
                }
                let row = &self.rows[r];
                if row.len() <= 1 {
                    return idx;
                }
                let nc: usize = match dir {
                    Dir::Left => {
                        if c == 0 && !wrap {
                            return idx;
                        }
                        if c == 0 {
                            row.len() - 1
                        } else {
                            c - 1
                        }
                    },
                    _ => {
                        if c + 1 == row.len() && !wrap {
                            return idx;
                        }
                        if c + 1 == row.len() {
                            0
                        } else {
                            c + 1
                        }
                    },
                };
                row[nc]
            },
            Dir::Up | Dir::Down => {
                let (r, _c) = self.pos_of(idx);
                proof {
                    self.lemma_pos_in_range(idx);
                }
                let n_rows = self.rows.len();
                let nr: usize = match dir {
                    Dir::Up => if r == 0 {
                        if wrap {
                            n_rows - 1
                        } else {
                            r
                        }
                    } else {
                        r - 1
                    },
                    _ => if r + 1 == n_rows {
                        if wrap {
                            0
                        } else {
                            r
                        }
                    } else {
                        r + 1
                    },
                };
                if nr == r {
                    return idx;
                }
                self.nearest_in_row(nr, idx)
            },
        }
    }

    /// A layout that is not empty has a row, and every position is in it.
    proof fn lemma_pos_in_range(self, idx: usize)
        requires
            self.wf(),
            self.rects@.len() > 0,
            self.is_pos(idx, self.pos(idx)),
        ensures
            self.pos(idx).0 < self.rows@.len(),
            self.pos(idx).1 < self.rows@[self.pos(idx).0 as int]@.len(),
    {
        let rv = rows_view(self.rows@);
        if rv.len() == 0 {
            assert(row_start(rv, 0) == 0);
        }
        assert(rv[0] == self.rows@[0]@);
        assert(rv[0].len() > 0);
    }

    /// The item of `row` whose centre is horizontally closest to `idx`'s
    /// centre; of several, the first.
    fn nearest_in_row(&self, row: usize, idx: usize) -> (to: usize)
        requires
            self.wf(),
            row < self.rows@.len(),
            idx < self.rects@.len(),
        ensures
            self.is_nearest(row as int, idx, to),
            to < self.rects@.len(),
    {
        proof {
            self.lemma_row_in_order(row as int);
        }
        let items = &self.rows[row];
        let mut best: usize = 0;
        let mut best_d = distance(&self.rects[items[0]], &self.rects[idx]);
        let mut k: usize = 1;
        while k < items.len()
            invariant
                1 <= k <= items.len(),
                best < k,
                items@ == self.rows@[row as int]@,
                idx < self.rects@.len(),
                forall|c: int| 0 <= c < items@.len() ==> #[trigger] items@[c] < self.rects@.len(),
                best_d == centre_distance(
                    self.rects@[items@[best as int] as int],
                    self.rects@[idx as int],
                ),
                forall|c: int|
                    0 <= c < k ==> best_d <= centre_distance(
                        self.rects@[#[trigger] items@[c] as int],
                        self.rects@[idx as int],
                    ),
                forall|c: int|
                    0 <= c < best ==> best_d < centre_distance(
                        self.rects@[#[trigger] items@[c] as int],
                        self.rects@[idx as int],
                    ),
            decreases items.len() - k,
        {
            let d = distance(&self.rects[items[k]], &self.rects[idx]);
            if d < best_d {
                best = k;
                best_d = d;
            }
            k += 1;
        }
        assert(items@[best as int] == self.rows@[row as int]@[best as int]);
        items[best]
    }

    /// `found` is the first card whose thumbnail covers the point, if any.
    pub open spec fn hits(self, px: int, py: int, found: Option<usize>) -> bool {
        match found {
            Some(i) => {
                &&& i < self.rects@.len()
                &&& self.rects@[i as int].thumb.covers(px, py)
                &&& forall|k: int|
                    0 <= k < i ==> !(#[trigger] self.rects@[k]).thumb.covers(px, py)
            },
            None => forall|k: int|
                0 <= k < self.rects@.len() ==> !(#[trigger] self.rects@[k]).thumb.covers(px, py),
        }
    }

    /// The card under the point, if any.
    pub fn hit(&self, px: i64, py: i64) -> (found: Option<usize>)
        ensures
            self.hits(px as int, py as int, found),
    {
        let mut i: usize = 0;
        while i < self.rects.len()
            invariant
                0 <= i <= self.rects.len(),
                forall|k: int|
                    0 <= k < i ==> !(#[trigger] self.rects@[k]).thumb.covers(px as int, py as int),
            decreases self.rects.len() - i,
        {
            if self.rects[i].thumb.contains(px, py) {
                return Some(i);
            }
            i += 1;
        }
        None
    }
}

fn distance(a: &ItemRect, b: &ItemRect) -> (d: i128)
    ensures
        d == centre_distance(*a, *b),
{
    let ca: i128 = 2 * a.thumb.x as i128 + a.thumb.w as i128;
    let cb: i128 = 2 * b.thumb.x as i128 + b.thumb.w as i128;
    if ca >= cb {
        (ca - cb) / 2
    } else {
        (cb - ca) / 2
    }
}

} // verus!
