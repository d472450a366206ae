//! What the overlay looks like: a list of things to draw, in order, with their
//! places and colours. Lengths are in milli-points, with the origin in the
//! bottom left corner; colours are in thousandths.

use crate::layout::{ItemRect, Layout, Rect};
use crate::overlay::AppInner;
use crate::state;
use crate::state::{Core, Item};
use crate::tags;
use crate::util;
use vstd::prelude::*;
use vstd::string::StringExecFns;

verus! {

/// A colour.
#[derive(Clone, Copy, PartialEq, Eq, Debug, Structural)]
pub enum Paint {
    /// White and opacity.
    White(u32, u32),
    /// Red, green, blue and opacity.
    Rgb(u32, u32, u32, u32),
}

/// A text on the overlay.
#[derive(Clone, Copy, PartialEq, Eq, Debug, Structural)]
pub enum Caption {
    /// There are no windows.
    NoWindows,
    /// A tag's number.
    Number(usize),
}

/// Something to draw.
#[derive(Clone, Copy, PartialEq, Eq, Debug, Structural)]
pub enum Draw {
    /// Fill a rectangle whose corners have the given radius.
    Fill(Rect, i64, Paint),
    /// Outline a rectangle whose corners have the given radius, with a line of
    /// the given width.
    Stroke(Rect, i64, i64, Paint),
    /// Inside of a card whose corners have the given radius: fill the area, and
    /// draw the entry's image into it where there is one (`fit_image`).
    Thumb(usize, Rect, Rect, i64, Paint),
    /// Write a bold text of the given size into the middle of an area.
    Text(Caption, i64, Paint, Rect),
    /// Write the entry's title into the middle of an area, in a bold font of
    /// the given size, shortened to the given width (`fit_label`).
    Title(usize, i64, Paint, Rect, i64),
    /// Write the hint at the lower edge (`hint_pill`).
    Hint,
}

// ---------- cards ----------

/// The card of an entry: its thumbnail and its title as one.
pub open spec fn card_area(r: ItemRect) -> Rect {
    Rect {
        x: r.thumb.x,
        y: r.label.y,
        w: r.thumb.w,
        h: (r.thumb.h + r.label.h) as i64,
    }
}

/// The line between thumbnail and title.
pub open spec fn divider_area(r: ItemRect) -> Rect {
    Rect {
        x: (r.label.x + 8_000) as i64,
        y: (r.label.y + r.label.h - 1_000) as i64,
        w: (r.label.w - 16_000) as i64,
        h: 1_000,
    }
}

/// The badge of a tag, in the upper right corner of the thumbnail.
pub open spec fn badge_area(r: ItemRect) -> Rect {
    Rect {
        x: (r.thumb.x + r.thumb.w - 26_000) as i64,
        y: (r.thumb.y + r.thumb.h - 24_000) as i64,
        w: 20_000,
        h: 18_000,
    }
}

/// Width that is left for a title.
pub open spec fn title_room(r: ItemRect) -> i64 {
    if r.label.w >= 16_000 {
        (r.label.w - 16_000) as i64
    } else {
        0
    }
}

/// Number of the tag of a window, if it has one.
pub open spec fn tag_of_window(slots: Seq<Option<u32>>, id: u32) -> Option<usize> {
    match tags::first_slot(slots, |t: Option<u32>| t == Some(id)) {
        Some(s) => Some((s + 1) as usize),
        None => None,
    }
}

/// How an entry is drawn; the selected one has a ring and a brighter title, a
/// tagged one a badge.
pub open spec fn card_draws(index: usize, r: ItemRect, selected: bool, tag: Option<usize>) -> Seq<
    Draw,
> {
    let card = card_area(r);
    seq![
        Draw::Fill(card, 12_000, Paint::White(240, 950)),
        Draw::Thumb(index, r.thumb, card, 12_000, Paint::White(90, 900)),
        Draw::Stroke(card, 12_000, 1_000, Paint::White(550, 220)),
        Draw::Fill(divider_area(r), 0, Paint::White(900, 140)),
        Draw::Title(
            index,
            13_000,
            Paint::White(
                if selected {
                    900
                } else {
                    800
                },
                1000,
            ),
            r.label,
            title_room(r),
        ),
    ] + (if selected {
        seq![Draw::Stroke(card, 12_000, 3_000, Paint::Rgb(300, 600, 1000, 1000))]
    } else {
        Seq::empty()
    }) + (match tag {
        Some(n) => seq![
            Draw::Fill(badge_area(r), 5_000, Paint::Rgb(950, 620, 50, 950)),
            Draw::Text(Caption::Number(n), 12_000, Paint::White(1000, 1000), badge_area(r)),
        ],
        None => Seq::empty(),
    })
}

/// How the first `n` entries are drawn.
pub open spec fn cards_draws(
    items: Seq<Item>,
    rects: Seq<ItemRect>,
    selection: usize,
    slots: Seq<Option<u32>>,
    n: int,
) -> Seq<Draw>
    decreases n,
{
    if n <= 0 {
        Seq::empty()
    } else {
        cards_draws(items, rects, selection, slots, n - 1) + card_draws(
            (n - 1) as usize,
            rects[n - 1],
            n - 1 == selection,
            tag_of_window(slots, items[n - 1].id),
        )
    }
}

/// How the whole overlay is drawn.
pub open spec fn overlay_draws(core: Core, layout: Layout, hint: bool) -> Seq<Draw> {
    let full = Rect { x: 0, y: 0, w: layout.total_w, h: layout.total_h };
    seq![Draw::Fill(full, 18_000, Paint::White(130, 940))] + (if core.items@.len() == 0 {
        seq![Draw::Text(Caption::NoWindows, 14_000, Paint::White(800, 1000), full)]
    } else {
        Seq::empty()
    }) + cards_draws(
        core.items@,
        layout.rects@,
        core.selection,
        core.tags@,
        core.items@.len() as int,
    ) + (if hint {
        seq![Draw::Hint]
    } else {
        Seq::empty()
    })
}

/// The hint is still to be seen.
pub open spec fn hint_shown(app: AppInner, now: u64) -> bool {
    app.hint matches Some(h) && now < h.until
}

fn tag_number_of(core: &Core, id: u32) -> (n: Option<usize>)
    ensures
        n == tag_of_window(core.tags@, id),
{
    let n = core.tag_of(id);
    proof {
        let has_id = |t: Option<u32>| t == Some(id);
        match n {
            Some(k) => {
                tags::lemma_first_slot(core.tags@, has_id, Some((k - 1) as usize));
            },
            None => {
                tags::lemma_first_slot(core.tags@, has_id, None);
            },
        }
    }
    n
}

fn draw_card(list: &mut Vec<Draw>, index: usize, r: &ItemRect, selected: bool, tag: Option<usize>)
    requires
        0 <= r.thumb.x <= i64::MAX / 4,
        0 <= r.thumb.y <= i64::MAX / 4,
        0 <= r.thumb.w <= i64::MAX / 4,
        0 <= r.thumb.h <= i64::MAX / 4,
        0 <= r.label.x <= i64::MAX / 4,
        0 <= r.label.y <= i64::MAX / 4,
        0 <= r.label.w <= i64::MAX / 4,
        0 <= r.label.h <= i64::MAX / 4,
    ensures
        final(list)@ == old(list)@ + card_draws(index, *r, selected, tag),
{
    let card = Rect { x: r.thumb.x, y: r.label.y, w: r.thumb.w, h: r.thumb.h + r.label.h };
    list.push(Draw::Fill(card, 12_000, Paint::White(240, 950)));
    list.push(Draw::Thumb(index, r.thumb, card, 12_000, Paint::White(90, 900)));
    list.push(Draw::Stroke(card, 12_000, 1_000, Paint::White(550, 220)));
    let divider = Rect {
        x: r.label.x + 8_000,
        y: r.label.y + r.label.h - 1_000,
        w: r.label.w - 16_000,
        h: 1_000,
    };
    list.push(Draw::Fill(divider, 0, Paint::White(900, 140)));
    let white: u32 = if selected {
        900
    } else {
        800
    };
    let room: i64 = if r.label.w >= 16_000 {
        r.label.w - 16_000
    } else {
        0
    };
    list.push(Draw::Title(index, 13_000, Paint::White(white, 1000), r.label, room));
    if selected {
        list.push(Draw::Stroke(card, 12_000, 3_000, Paint::Rgb(300, 600, 1000, 1000)));
    }
    if let Some(n) = tag {
        let badge = Rect {
            x: r.thumb.x + r.thumb.w - 26_000,
            y: r.thumb.y + r.thumb.h - 24_000,
            w: 20_000,
            h: 18_000,
        };
        list.push(Draw::Fill(badge, 5_000, Paint::Rgb(950, 620, 50, 950)));
        list.push(Draw::Text(Caption::Number(n), 12_000, Paint::White(1000, 1000), badge));
    }
    assert(list@ =~= old(list)@ + card_draws(index, *r, selected, tag));
}

/// Compose the overlay: nothing unless it is visible and laid out.
pub fn compose(core: &Core, app: &AppInner, now: u64) -> (frame: Option<Vec<Draw>>)
    requires
        core.wf(),
    ensures
        match core.layout {
            Some(layout) if core.visible => frame matches Some(list) && list@ == overlay_draws(
                *core,
                layout,
                hint_shown(*app, now),
            ),
            _ => frame is None,
        },
{
    if !core.visible {
        return None;
    }
    let layout = match &core.layout {
        Some(l) => l,
        None => {
            return None;
        },
    };
    let mut list: Vec<Draw> = Vec::new();
    let full = Rect { x: 0, y: 0, w: layout.total_w, h: layout.total_h };
    list.push(Draw::Fill(full, 18_000, Paint::White(130, 940)));
    if core.items.len() == 0 {
        list.push(Draw::Text(Caption::NoWindows, 14_000, Paint::White(800, 1000), full));
    }
    let ghost head = list@;
    let mut i: usize = 0;
    while i < core.items.len()
        invariant
            i <= core.items@.len(),
            core.layout == Some(*layout),
            core.wf(),
            list@ == head + cards_draws(
                core.items@,
                layout.rects@,
                core.selection,
                core.tags@,
                i as int,
            ),
        decreases core.items.len() - i,
    {
        assert(layout.inside(layout.rects@[i as int].thumb));
        let tag = tag_number_of(core, core.items[i].id);
        let ghost before = list@;
        draw_card(&mut list, i, &layout.rects[i], i == core.selection, tag);
        proof {
            let one = card_draws(i, layout.rects@[i as int], i == core.selection, tag);
            let done = cards_draws(
                core.items@,
                layout.rects@,
                core.selection,
                core.tags@,
                i as int,
            );
            assert((head + done) + one =~= head + (done + one));
        }
        i += 1;
    }
    let shown = match &app.hint {
        Some(h) => now < h.until,
        None => false,
    };
    if shown {
        list.push(Draw::Hint);
    }
    assert(list@ =~= overlay_draws(*core, *layout, shown));
    Some(list)
}

// ---------- texts ----------

/// The text of a caption.
pub fn caption_text(caption: Caption) -> (text: String)
    ensures
        match caption {
            Caption::NoWindows => text@ == "No windows here"@,
            Caption::Number(n) => text@ == util::decimal_digits(n as int),
        },
{
    match caption {
        Caption::NoWindows => "No windows here".to_owned(),
        Caption::Number(n) => util::decimal(n as u64),
    }
}

/// What an entry is called: its window's title, or else its app's name.
pub open spec fn name_of(item: Item) -> Seq<char> {
    if item.title@.len() == 0 {
        item.owner@
    } else {
        item.title@
    }
}

pub fn label_text(item: &Item) -> (text: &String)
    ensures
        text@ == name_of(*item),
{
    if item.title.as_str().is_empty() {
        &item.owner
    } else {
        &item.title
    }
}

/// The text with all but its last `n` characters replaced by an ellipsis.
pub open spec fn shortened(s: Seq<char>, n: int) -> Seq<char> {
    "…"@ + util::tail(s, n)
}

/// `measure` may find the text at most `room` wide.
pub open spec fn may_fit<F: Fn(&str) -> i64>(measure: F, text: Seq<char>, room: i64) -> bool {
    exists|t: &str, w: i64| t@ == text && #[trigger] call_ensures(measure, (t,), w) && w <= room
}

/// `measure` may find the text wider than `room`.
pub open spec fn may_exceed<F: Fn(&str) -> i64>(measure: F, text: Seq<char>, room: i64) -> bool {
    exists|t: &str, w: i64| t@ == text && #[trigger] call_ensures(measure, (t,), w) && w > room
}

/// Fit a text into `room`, keeping its end: a text that is too wide loses
/// characters at its beginning, for which an ellipsis stands. As many
/// characters stay as the search for them finds room for: one more does not
/// fit.
pub fn fit_label<F: Fn(&str) -> i64>(s: &str, room: i64, measure: F) -> (label: String)
    requires
        forall|t: &str| call_requires(measure, (t,)),
    ensures
        ({
            ||| label@ == s@ && may_fit(measure, s@, room)
            ||| may_exceed(measure, s@, room) && exists|n: int|
                0 <= n <= s@.len() && label@ == #[trigger] shortened(s@, n) && (n > 0 ==> may_fit(
                    measure,
                    shortened(s@, n),
                    room,
                )) && (n < s@.len() ==> may_exceed(measure, shortened(s@, n + 1), room))
        }),
{
    if measure(s) <= room {
        return s.to_owned();
    }
    let chars = util::chars_of(s);
    let count: usize = chars.len();
    let mut lo: usize = 0;
    let mut hi: usize = count;
    while lo < hi
        invariant
            lo <= hi <= count,
            count == s@.len(),
            forall|t: &str| call_requires(measure, (t,)),
            lo > 0 ==> may_fit(measure, shortened(s@, lo as int), room),
            hi < count ==> may_exceed(measure, shortened(s@, hi + 1), room),
        decreases hi - lo,
    {
        let mid: usize = lo + (hi - lo) / 2 + (hi - lo) % 2;
        let text = "…".to_owned().concat(&util::tail_chars(s, mid));
        assert(text@ == shortened(s@, mid as int));
        if measure(text.as_str()) <= room {
            lo = mid;
        } else {
            hi = mid - 1;
        }
    }
    let label = "…".to_owned().concat(&util::tail_chars(s, lo));
    assert(label@ == shortened(s@, lo as int));
    label
}

/// With widths that grow with the text, no longer end of the text would fit
/// than the one that was kept.
pub proof fn law_label_keeps_as_much_as_fits(
    s: Seq<char>,
    width: spec_fn(Seq<char>) -> int,
    room: int,
    n: int,
    longer: int,
)
    requires
        0 <= n < longer <= s.len(),
        forall|a: int, b: int|
            0 <= a <= b <= s.len() ==> width(#[trigger] shortened(s, a)) <= width(
                #[trigger] shortened(s, b),
            ),
        width(shortened(s, n + 1)) > room,
    ensures
        width(shortened(s, longer)) > room,
{
    assert(width(shortened(s, n + 1)) <= width(shortened(s, longer)));
}

// ---------- places ----------

/// Half of a length, rounded down.
fn half(d: i64) -> (h: i64)
    requires
        d > i64::MIN + 1,
    ensures
        h == d as int / 2,
{
    if d >= 0 {
        d / 2
    } else {
        -((1 - d) / 2)
    }
}

/// A length that can be added to others without overflow.
pub open spec fn sane(v: i64) -> bool {
    0 <= v <= i64::MAX / 4
}

/// An area whose place and size can be added to others without overflow.
pub open spec fn sane_area(r: Rect) -> bool {
    &&& -(i64::MAX / 4) <= r.x <= i64::MAX / 4
    &&& -(i64::MAX / 4) <= r.y <= i64::MAX / 4
    &&& -(i64::MAX / 4) <= r.w <= i64::MAX / 4
    &&& -(i64::MAX / 4) <= r.h <= i64::MAX / 4
}

/// Where a text of the given size begins when it stands in the middle of an
/// area.
pub fn centred(within: &Rect, text_w: i64, text_h: i64) -> (at: (i64, i64))
    requires
        sane_area(*within),
        sane(text_w),
        sane(text_h),
    ensures
        at.0 == within.x + (within.w - text_w) / 2,
        at.1 == within.y + (within.h - text_h) / 2,
{
    (within.x + half(within.w - text_w), within.y + half(within.h - text_h))
}

/// Size of an image in an area: as large as fits with its shape kept.
pub open spec fn fitted(area: Rect, img_w: int, img_h: int) -> (int, int) {
    if area.w * img_h <= area.h * img_w {
        (area.w as int, img_h * area.w / img_w)
    } else {
        (img_w * area.h / img_h, area.h as int)
    }
}

/// Where an image is drawn: fitted into the area, in its middle. An image that
/// is no larger than a point is not drawn.
pub fn fit_image(area: &Rect, img_w: i64, img_h: i64) -> (place: Option<Rect>)
    requires
        sane_area(*area),
        area.w >= 0,
        area.h >= 0,
    ensures
        match place {
            Some(r) => {
                let size = fitted(*area, img_w as int, img_h as int);
                &&& img_w > 1_000 && img_h > 1_000
                &&& r.w == size.0
                &&& r.h == size.1
                &&& r.x == area.x + (area.w - size.0) / 2
                &&& r.y == area.y + (area.h - size.1) / 2
            },
            None => img_w <= 1_000 || img_h <= 1_000,
        },
{
    if img_w <= 1_000 || img_h <= 1_000 {
        return None;
    }
    let aw: i128 = area.w as i128;
    let ah: i128 = area.h as i128;
    let iw: i128 = img_w as i128;
    let ih: i128 = img_h as i128;
    proof {
        lemma_products(aw as int, ih as int);
        lemma_products(ah as int, iw as int);
        lemma_fitted_inside(*area, img_w as int, img_h as int);
    }
    let (w, h): (i64, i64) = if aw * ih <= ah * iw {
        assert(img_h * area.w == aw * ih) by (nonlinear_arith)
            requires
                aw == area.w,
                ih == img_h,
        ;
        (area.w, (aw * ih / iw) as i64)
    } else {
        assert(img_w * area.h == ah * iw) by (nonlinear_arith)
            requires
                ah == area.h,
                iw == img_w,
        ;
        ((ah * iw / ih) as i64, area.h)
    };
    Some(Rect { x: area.x + half(area.w - w), y: area.y + half(area.h - h), w, h })
}

proof fn lemma_products(a: int, b: int)
    requires
        0 <= a <= i64::MAX,
        0 <= b <= i64::MAX,
    ensures
        0 <= a * b <= i64::MAX * i64::MAX,
{
    assert(0 <= a * b <= i64::MAX * i64::MAX) by (nonlinear_arith)
        requires
            0 <= a <= i64::MAX,
            0 <= b <= i64::MAX,
    ;
}

/// A fitted image is no larger than its area.
proof fn lemma_fitted_inside(area: Rect, img_w: int, img_h: int)
    requires
        area.w >= 0,
        area.h >= 0,
        img_w > 0,
        img_h > 0,
    ensures
        0 <= fitted(area, img_w, img_h).0 <= area.w,
        0 <= fitted(area, img_w, img_h).1 <= area.h,
{
    let aw = area.w as int;
    let ah = area.h as int;
    if aw * img_h <= ah * img_w {
        assert(0 <= img_h * aw / img_w <= ah) by (nonlinear_arith)
            requires
                aw * img_h <= ah * img_w,
                aw >= 0,
                img_h > 0,
                img_w > 0,
        ;
    } else {
        assert(0 <= img_w * ah / img_h <= aw) by (nonlinear_arith)
            requires
                aw * img_h > ah * img_w,
                ah >= 0,
                img_h > 0,
                img_w > 0,
        ;
    }
}

/// An image never leaves its area, and fills it in one direction.
pub proof fn law_image_stays_in_its_area(area: Rect, img_w: int, img_h: int)
    requires
        area.w >= 0,
        area.h >= 0,
        img_w > 0,
        img_h > 0,
    ensures
        ({
            let size = fitted(area, img_w, img_h);
            &&& 0 <= size.0 <= area.w
            &&& 0 <= size.1 <= area.h
            &&& size.0 == area.w || size.1 == area.h
        }),
{
    lemma_fitted_inside(area, img_w, img_h);
}

/// The pill behind a hint whose text has the given width, at the lower edge of
/// an overlay of the given width.
pub fn hint_pill(total_w: i64, text_w: i64) -> (pill: Rect)
    requires
        sane(total_w),
        sane(text_w),
    ensures
        pill == (Rect {
            x: ((total_w - (text_w + 22_000)) / 2) as i64,
            y: 2_000,
            w: (text_w + 22_000) as i64,
            h: 18_000,
        }),
{
    let w: i64 = text_w + 22_000;
    Rect { x: half(total_w - w), y: 2_000, w, h: 18_000 }
}

/// Where the text of a hint begins in its pill.
pub fn hint_origin(pill: &Rect, text_h: i64) -> (at: (i64, i64))
    requires
        sane_area(*pill),
        sane(text_h),
    ensures
        at.0 == pill.x + 11_000,
        at.1 == pill.y + (pill.h - text_h) / 2,
{
    (pill.x + 11_000, pill.y + half(pill.h - text_h))
}

/// Where the overlay stands: in the middle of its screen.
pub fn overlay_frame(screen: (i32, i32, i32, i32), layout: &Layout) -> (frame: Rect)
    requires
        layout.wf(),
    ensures
        frame == (Rect {
            x: (screen.0 + (screen.2 - layout.total_w) / 2) as i64,
            y: (screen.1 + (screen.3 - layout.total_h) / 2) as i64,
            w: layout.total_w,
            h: layout.total_h,
        }),
{
    Rect {
        x: screen.0 as i64 + half(screen.2 as i64 - layout.total_w),
        y: screen.1 as i64 + half(screen.3 as i64 - layout.total_h),
        w: layout.total_w,
        h: layout.total_h,
    }
}

/// Two places differ by more than half a point.
pub open spec fn apart(a: i64, b: i64) -> bool {
    a - b > 500 || b - a > 500
}

fn far(a: i64, b: i64) -> (yes: bool)
    ensures
        yes == apart(a, b),
{
    let d: i128 = a as i128 - b as i128;
    d > 500 || -d > 500
}

/// Whether the overlay's window has to be moved or resized.
pub fn needs_move(current: &Rect, wanted: &Rect) -> (yes: bool)
    ensures
        yes == (apart(current.w, wanted.w) || apart(current.h, wanted.h) || apart(
            current.x,
            wanted.x,
        ) || apart(current.y, wanted.y)),
{
    far(current.w, wanted.w) || far(current.h, wanted.h) || far(current.x, wanted.x) || far(
        current.y,
        wanted.y,
    )
}

} // verus!
