//! Displays: which one is meant, how large it is, and how many pixels its
//! thumbnails have. Lengths are in milli-points.

use crate::config::Config;
use vstd::prelude::*;

verus! {

/// A display that is online, with its area in global coordinates.
#[derive(Clone, Copy, Debug)]
pub struct Display {
    pub id: u32,
    pub x: i32,
    pub y: i32,
    pub w: i32,
    pub h: i32,
}

impl Display {
    /// The point lies on the display; its right and lower edges belong to the
    /// neighbours.
    pub open spec fn has(self, x: i32, y: i32) -> bool {
        self.x <= x < self.x + self.w && self.y <= y < self.y + self.h
    }

    fn has_point(&self, x: i32, y: i32) -> (yes: bool)
        ensures
            yes == self.has(x, y),
    {
        self.x <= x && (x as i64) < self.x as i64 + self.w as i64 && self.y <= y && (y as i64)
            < self.y as i64 + self.h as i64
    }
}

/// The display under the pointer: the first one that has it, or else the main
/// display. The pointer's place may be unknown.
pub fn cursor_display(pointer: Option<(i32, i32)>, displays: &Vec<Display>, main_id: u32) -> (id:
    u32)
    ensures
        match pointer {
            Some((x, y)) => {
                ||| exists|i: int|
                    0 <= i < displays@.len() && (#[trigger] displays@[i]).has(x, y)
                        && displays@[i].id == id && forall|k: int|
                        0 <= k < i ==> !(#[trigger] displays@[k]).has(x, y)
                ||| id == main_id && forall|k: int|
                    0 <= k < displays@.len() ==> !(#[trigger] displays@[k]).has(x, y)
            },
            None => id == main_id,
        },
{
    if let Some((x, y)) = pointer {
        let mut i: usize = 0;
        while i < displays.len()
            invariant
                i <= displays.len(),
                pointer == Some((x, y)),
                forall|k: int| 0 <= k < i ==> !(#[trigger] displays@[k]).has(x, y),
            decreases displays.len() - i,
        {
            if displays[i].has_point(x, y) {
                assert(displays@[i as int].has(x, y));
                return displays[i].id;
            }
            i += 1;
        }
    }
    main_id
}

/// The area of a display, unless it is empty.
pub fn display_bounds(x: i32, y: i32, w: i32, h: i32) -> (bounds: Option<(i32, i32, i32, i32)>)
    ensures
        bounds == (if w > 0 && h > 0 {
            Some((x, y, w, h))
        } else {
            None
        }),
{
    if w > 0 && h > 0 {
        Some((x, y, w, h))
    } else {
        None
    }
}

/// The active desktop, where the system names one.
pub fn active_space(number: i64) -> (space: Option<i64>)
    ensures
        space == (if number > 0 {
            Some(number)
        } else {
            None
        }),
{
    if number > 0 {
        Some(number)
    } else {
        None
    }
}

/// A screen as the overlay's window sees it.
#[derive(Clone, Copy, Debug)]
pub struct Screen {
    /// The screen's display, when it is known.
    pub id: Option<u32>,
    pub frame: (i32, i32, i32, i32),
}

/// The screen is the one of display `id`; no display has the number zero.
pub open spec fn is_screen_of(s: Screen, id: u32) -> bool {
    id != 0 && s.id == Some(id)
}

/// The frame of a display's screen; of the main screen when there is none, and
/// of an ordinary screen when there is no main screen either.
pub fn target_screen_frame(
    display_id: u32,
    screens: &Vec<Screen>,
    main_frame: Option<(i32, i32, i32, i32)>,
) -> (frame: (i32, i32, i32, i32))
    ensures
        ({
            ||| exists|i: int|
                0 <= i < screens@.len() && is_screen_of(#[trigger] screens@[i], display_id)
                    && screens@[i].frame == frame && forall|k: int|
                    0 <= k < i ==> !is_screen_of(#[trigger] screens@[k], display_id)
            ||| {
                &&& forall|k: int|
                    0 <= k < screens@.len() ==> !is_screen_of(#[trigger] screens@[k], display_id)
                &&& frame == (match main_frame {
                    Some(f) => f,
                    None => (0i32, 0i32, 1_440_000i32, 900_000i32),
                })
            }
        }),
{
    if display_id != 0 {
        let mut i: usize = 0;
        while i < screens.len()
            invariant
                i <= screens.len(),
                display_id != 0,
                forall|k: int| 0 <= k < i ==> !is_screen_of(#[trigger] screens@[k], display_id),
            decreases screens.len() - i,
        {
            if screens[i].id == Some(display_id) {
                assert(is_screen_of(screens@[i as int], display_id));
                return screens[i].frame;
            }
            i += 1;
        }
    }
    match main_frame {
        Some(f) => f,
        None => (0, 0, 1_440_000, 900_000),
    }
}

// ---------- pixels ----------

/// The highest scale factor, in thousandths, of all screens; at least one.
pub fn screen_scale(factors: &Vec<u32>) -> (best: u32)
    ensures
        best >= 1000,
        forall|i: int| 0 <= i < factors@.len() ==> #[trigger] factors@[i] <= best,
        best == 1000 || factors@.contains(best),
{
    let mut best: u32 = 1000;
    let mut i: usize = 0;
    while i < factors.len()
        invariant
            i <= factors.len(),
            best >= 1000,
            forall|k: int| 0 <= k < i ==> #[trigger] factors@[k] <= best,
            best == 1000 || factors@.contains(best),
        decreases factors.len() - i,
    {
        if factors[i] > best {
            best = factors[i];
            assert(factors@[i as int] == best);
        }
        i += 1;
    }
    best
}

/// `a / b`, rounded to the nearest whole number and up in the middle.
pub open spec fn rounded(a: int, b: int) -> int {
    (2 * a + b) / (2 * b)
}

/// Height of a thumbnail in pixels on screens of the given scale (in
/// thousandths).
pub open spec fn pixel_height(cfg: &Config, scale: u32) -> int {
    if cfg.thumb_height <= 0 {
        0
    } else {
        rounded(cfg.thumb_height * scale * cfg.thumb_px_scale, 1_000_000_000_000)
    }
}

pub fn thumb_px_h(cfg: &Config, scale: u32) -> (px: u64)
    ensures
        px == pixel_height(cfg, scale),
{
    if cfg.thumb_height <= 0 {
        return 0;
    }
    let h: u128 = cfg.thumb_height as u128;
    proof {
        assert(0 <= h * scale <= 0x7fff_ffff * 0xffff_ffff) by (nonlinear_arith)
            requires
                0 <= h <= 0x7fff_ffff,
                0 <= scale <= 0xffff_ffff,
        ;
        assert(0 <= (h * scale) * cfg.thumb_px_scale <= 0x7fff_ffff * 0xffff_ffff * 0xffff_ffff)
            by (nonlinear_arith)
            requires
                0 <= h * scale <= 0x7fff_ffff * 0xffff_ffff,
                0 <= cfg.thumb_px_scale <= 0xffff_ffff,
        ;
    }
    let a: u128 = h * (scale as u128) * (cfg.thumb_px_scale as u128);
    ((2 * a + 1_000_000_000_000) / 2_000_000_000_000) as u64
}

/// Size in pixels of the thumbnail of an image with the given size, for a
/// height of `target_h`: the image's shape is kept, and no side is empty. An
/// empty image has no thumbnail.
pub fn thumb_size(img_w: u32, img_h: u32, target_h: u32) -> (size: Option<(u64, u64)>)
    ensures
        match size {
            Some((w, h)) => {
                &&& img_w > 0 && img_h > 0
                &&& w == (if rounded(img_w * target_h, img_h as int) > 1 {
                    rounded(img_w * target_h, img_h as int)
                } else {
                    1
                })
                &&& h == (if target_h > 1 {
                    target_h as int
                } else {
                    1
                })
            },
            None => img_w == 0 || img_h == 0,
        },
{
    if img_w == 0 || img_h == 0 {
        return None;
    }
    proof {
        assert(0 <= img_w * target_h <= 0xffff_ffff * 0xffff_ffff) by (nonlinear_arith)
            requires
                0 <= img_w <= 0xffff_ffff,
                0 <= target_h <= 0xffff_ffff,
        ;
    }
    let a: u128 = 2 * (img_w as u128 * target_h as u128) + img_h as u128;
    let b: u128 = 2 * img_h as u128;
    proof {
        assert(a as int / b as int <= a) by (nonlinear_arith)
            requires
                b >= 1,
                a >= 0,
        ;
        assert(a as int / b as int <= u64::MAX) by (nonlinear_arith)
            requires
                0 <= a <= 2 * (0xffff_ffff * 0xffff_ffff) + 0xffff_ffff,
                b >= 2,
        ;
    }
    let w: u64 = (a / b) as u64;
    Some(
        (
            if w > 1 {
                w
            } else {
                1
            },
            if target_h > 1 {
                target_h as u64
            } else {
                1
            },
        ),
    )
}

} // verus!
