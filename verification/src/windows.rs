//! Which windows can be switched to: parsing the window server's list,
//! filtering out everything that is not a real window, and scoping the rest to
//! a display and a mode.
//!
//! Window bounds are in milli-points (thousandths of a point) of the global
//! coordinate space with a top-left origin; opacity is in millionths.

use crate::config::Config;
use crate::state::{Item, Mode};
use crate::util;
use std::collections::HashSet;
use vstd::prelude::*;

verus! {

/// A window as the window server lists it.
#[derive(Debug)]
pub struct Win {
    pub id: u32,
    pub pid: i32,
    pub owner: String,
    pub title: String,
    pub x: i32,
    pub y: i32,
    pub w: i32,
    pub h: i32,
    pub layer: i32,
    /// Opacity in millionths.
    pub alpha: u32,
    pub onscreen: bool,
}

impl Clone for Win {
    fn clone(&self) -> (copy: Self)
        ensures
            copy == *self,
    {
        Win {
            id: self.id,
            pid: self.pid,
            owner: self.owner.clone(),
            title: self.title.clone(),
            x: self.x,
            y: self.y,
            w: self.w,
            h: self.h,
            layer: self.layer,
            alpha: self.alpha,
            onscreen: self.onscreen,
        }
    }
}

/// What the window server says about one window; an attribute that is missing
/// or has the wrong type is `None`.
#[derive(Debug)]
pub struct RawWin {
    pub number: Option<i32>,
    pub pid: Option<i32>,
    pub owner: Option<String>,
    pub title: Option<String>,
    pub bounds: Option<(i32, i32, i32, i32)>,
    pub layer: Option<i32>,
    pub alpha: Option<u32>,
    pub onscreen: Option<bool>,
}

pub open spec fn text_or_empty(t: Option<String>) -> Seq<char> {
    match t {
        Some(s) => s@,
        None => Seq::empty(),
    }
}

/// `w` is the window that `raw` describes, missing attributes filled in: no
/// id, no process, no texts, no extent, the normal layer, opaque, off screen.
pub open spec fn describes(raw: RawWin, w: Win) -> bool {
    let b = match raw.bounds {
        Some(b) => b,
        None => (0i32, 0i32, 0i32, 0i32),
    };
    &&& w.id == (match raw.number {
        Some(n) => n as u32,
        None => 0u32,
    })
    &&& w.pid == (match raw.pid {
        Some(p) => p as int,
        None => -1,
    })
    &&& w.owner@ == text_or_empty(raw.owner)
    &&& w.title@ == text_or_empty(raw.title)
    &&& (w.x, w.y, w.w, w.h) == b
    &&& w.layer == (match raw.layer {
        Some(l) => l as int,
        None => 0,
    })
    &&& w.alpha == (match raw.alpha {
        Some(a) => a as int,
        None => 1_000_000,
    })
    &&& w.onscreen == (raw.onscreen == Some(true))
}

fn text_or_default(t: &Option<String>) -> (s: String)
    ensures
        s@ == text_or_empty(*t),
{
    match t {
        Some(s) => s.clone(),
        None => String::new(),
    }
}

fn win_from(raw: &RawWin) -> (w: Win)
    ensures
        describes(*raw, w),
{
    let (x, y, w, h): (i32, i32, i32, i32) = match raw.bounds {
        Some(b) => b,
        None => (0, 0, 0, 0),
    };
    Win {
        id: match raw.number {
            Some(n) => n as u32,
            None => 0,
        },
        pid: match raw.pid {
            Some(p) => p,
            None => -1,
        },
        owner: text_or_default(&raw.owner),
        title: text_or_default(&raw.title),
        x,
        y,
        w,
        h,
        layer: match raw.layer {
            Some(l) => l,
            None => 0,
        },
        alpha: match raw.alpha {
            Some(a) => a,
            None => 1_000_000,
        },
        onscreen: match raw.onscreen {
            Some(b) => b,
            None => false,
        },
    }
}

/// The windows of the window server's list, in its order (front to back);
/// entries that could not be read are skipped.
pub fn all_windows(raw: &Vec<Option<RawWin>>) -> (wins: Vec<Win>)
    ensures
        wins@.len() == raw@.filter(|r: Option<RawWin>| r is Some).len(),
        forall|i: int|
            0 <= i < wins@.len() ==> describes(
                raw@.filter(|r: Option<RawWin>| r is Some)[i]->0,
                #[trigger] wins@[i],
            ),
{
    let ghost readable = |r: Option<RawWin>| r is Some;
    let mut wins: Vec<Win> = Vec::new();
    let mut i: usize = 0;
    proof {
        reveal(Seq::filter);
        assert(raw@.take(0) =~= Seq::<Option<RawWin>>::empty());
    }
    while i < raw.len()
        invariant
            0 <= i <= raw.len(),
            readable == (|r: Option<RawWin>| r is Some),
            wins@.len() == raw@.take(i as int).filter(readable).len(),
            forall|k: int|
                0 <= k < wins@.len() ==> describes(
                    raw@.take(i as int).filter(readable)[k]->0,
                    #[trigger] wins@[k],
                ),
        decreases raw.len() - i,
    {
        proof {
            reveal(Seq::filter);
            assert(raw@.take(i + 1).drop_last() =~= raw@.take(i as int));
        }
        match &raw[i] {
            Some(r) => {
                wins.push(win_from(r));
            },
            None => {},
        }
        i += 1;
    }
    assert(raw@.take(raw@.len() as int) =~= raw@);
    wins
}

/// The ids of all windows the window server knows, minimised windows and those
/// on other desktops included: a window that is not among them is closed.
pub fn window_ids_all(raw: &Vec<Option<RawWin>>) -> (ids: HashSet<u32>)
    ensures
        forall|id: u32| #[trigger]
            ids@.contains(id) <==> exists|k: int|
                0 <= k < raw@.len() && has_number(#[trigger] raw@[k], id),
{
    broadcast use vstd::std_specs::hash::group_hash_axioms;

    let mut ids: HashSet<u32> = HashSet::new();
    let mut i: usize = 0;
    while i < raw.len()
        invariant
            0 <= i <= raw.len(),
            forall|id: u32| #[trigger]
                ids@.contains(id) <==> exists|k: int|
                    0 <= k < i && has_number(#[trigger] raw@[k], id),
        decreases raw.len() - i,
    {
        let ghost before = ids@;
        let mut read: Option<u32> = None;
        if let Some(r) = &raw[i] {
            if let Some(n) = r.number {
                ids.insert(n as u32);
                read = Some(n as u32);
            }
        }
        proof {
            assert forall|id: u32| #[trigger] ids@.contains(id) <==> exists|k: int|
                0 <= k < i + 1 && has_number(#[trigger] raw@[k], id) by {
                assert(has_number(raw@[i as int], id) <==> read == Some(id));
                if before.contains(id) {
                    let k = choose|k: int| 0 <= k < i && has_number(#[trigger] raw@[k], id);
                    assert(has_number(raw@[k], id));
                }
            }
        }
        i += 1;
    }
    ids
}

/// The entry could be read and carries this window id.
pub open spec fn has_number(raw: Option<RawWin>, id: u32) -> bool {
    raw matches Some(r) && r.number matches Some(n) && n as u32 == id
}

/// Least opacity of a real window.
pub const MIN_ALPHA: u32 = 950_000;

/// Windows below this opacity look like overlays.
pub const OVERLAY_ALPHA: u32 = 980_000;

/// How far a contained window may stick out of the window around it.
pub const CONTAIN_SLACK: i64 = 2_000;

// ---------- noise ----------

/// Owners that are never worth switching to.
pub open spec fn noise_owner(owner: Seq<char>) -> bool {
    ||| util::same_ignoring_case(owner, "Window Server"@)
    ||| util::same_ignoring_case(owner, "Dock"@)
    ||| util::same_ignoring_case(owner, "Control Center"@)
    ||| util::same_ignoring_case(owner, "Notification Center"@)
    ||| util::same_ignoring_case(owner, "Spotlight"@)
    ||| util::same_ignoring_case(owner, "Siri"@)
    ||| util::same_ignoring_case(owner, "TextInputMenuAgent"@)
    ||| util::same_ignoring_case(owner, "SystemUIServer"@)
    ||| util::same_ignoring_case(owner, "loginwindow"@)
}

/// Owner names whose windows are only system furniture.
pub fn is_noise_owner(owner: &str) -> (noise: bool)
    ensures
        noise == noise_owner(owner@),
{
    util::eq_ignore_case(owner, "Window Server") || util::eq_ignore_case(owner, "Dock")
        || util::eq_ignore_case(owner, "Control Center") || util::eq_ignore_case(
        owner,
        "Notification Center",
    ) || util::eq_ignore_case(owner, "Spotlight") || util::eq_ignore_case(owner, "Siri")
        || util::eq_ignore_case(owner, "TextInputMenuAgent") || util::eq_ignore_case(
        owner,
        "SystemUIServer",
    ) || util::eq_ignore_case(owner, "loginwindow")
}

// ---------- the basic filter ----------

/// One of the terms occurs in the window's owner or title.
pub open spec fn has_filter_term(w: Win, terms: Seq<String>) -> bool {
    exists|k: int|
        0 <= k < terms.len() && (util::contains_text(w.owner@, (#[trigger] terms[k])@)
            || util::contains_text(w.title@, terms[k]@))
}

/// A real window is on screen in the normal layer, opaque, big enough to
/// matter, and neither system furniture nor filtered out by a term.
pub open spec fn passes_basic(w: Win, cfg: &Config) -> bool {
    &&& w.layer == 0
    &&& w.onscreen
    &&& w.alpha >= MIN_ALPHA
    &&& w.w >= cfg.min_window_w
    &&& w.h >= cfg.min_window_h
    &&& !noise_owner(w.owner@)
    &&& !has_filter_term(w, cfg.filter_terms@)
}

/// Cheap sanity filter for a single window.
pub fn basic_ok(w: &Win, cfg: &Config) -> (ok: bool)
    ensures
        ok == passes_basic(*w, cfg),
{
    if !(w.layer == 0 && w.onscreen && w.alpha >= MIN_ALPHA && w.w >= cfg.min_window_w && w.h
        >= cfg.min_window_h && !is_noise_owner(&w.owner)) {
        return false;
    }
    let mut k: usize = 0;
    while k < cfg.filter_terms.len()
        invariant
            0 <= k <= cfg.filter_terms.len(),
            forall|j: int|
                0 <= j < k ==> !util::contains_text(w.owner@, (#[trigger] cfg.filter_terms@[j])@)
                    && !util::contains_text(w.title@, cfg.filter_terms@[j]@),
        decreases cfg.filter_terms.len() - k,
    {
        let t = &cfg.filter_terms[k];
        if util::contains(&w.owner, t) || util::contains(&w.title, t) {
            return false;
        }
        k += 1;
    }
    true
}

// ---------- selecting ----------

/// The windows at the positions below `n` that `keep` accepts, in order.
pub open spec fn select_upto(wins: Seq<Win>, keep: spec_fn(int) -> bool, n: int) -> Seq<Win>
    decreases n,
{
    if n <= 0 {
        Seq::empty()
    } else if keep(n - 1) {
        select_upto(wins, keep, n - 1).push(wins[n - 1])
    } else {
        select_upto(wins, keep, n - 1)
    }
}

/// The windows at the positions that `keep` accepts, in order.
pub open spec fn select(wins: Seq<Win>, keep: spec_fn(int) -> bool) -> Seq<Win> {
    select_upto(wins, keep, wins.len() as int)
}

/// Predicates that agree on every position select the same windows.
pub proof fn lemma_select_same(
    wins: Seq<Win>,
    a: spec_fn(int) -> bool,
    b: spec_fn(int) -> bool,
    n: int,
)
    requires
        forall|i: int| 0 <= i < n ==> #[trigger] a(i) == b(i),
    ensures
        select_upto(wins, a, n) == select_upto(wins, b, n),
    decreases n,
{
    if n > 0 {
        lemma_select_same(wins, a, b, n - 1);
        assert(a(n - 1) == b(n - 1));
    }
}

/// What is selected comes from an accepted position.
pub proof fn lemma_selected_from(
    wins: Seq<Win>,
    keep: spec_fn(int) -> bool,
    n: int,
    k: int,
) -> (i: int)
    requires
        0 <= n <= wins.len(),
        0 <= k < select_upto(wins, keep, n).len(),
    ensures
        0 <= i < n,
        keep(i),
        select_upto(wins, keep, n)[k] == wins[i],
    decreases n,
{
    if keep(n - 1) && k == select_upto(wins, keep, n).len() - 1 {
        n - 1
    } else {
        lemma_selected_from(wins, keep, n - 1, k)
    }
}

/// What stands at an accepted position is selected.
pub proof fn lemma_selects(
    wins: Seq<Win>,
    keep: spec_fn(int) -> bool,
    n: int,
    i: int,
) -> (k: int)
    requires
        0 <= i < n <= wins.len(),
        keep(i),
    ensures
        0 <= k < select_upto(wins, keep, n).len(),
        select_upto(wins, keep, n)[k] == wins[i],
    decreases n,
{
    if i == n - 1 {
        select_upto(wins, keep, n).len() - 1
    } else {
        lemma_selects(wins, keep, n - 1, i)
    }
}

/// Copy the windows whose flag is set.
fn keep_flagged(wins: &Vec<Win>, keep: &Vec<bool>) -> (kept: Vec<Win>)
    requires
        keep@.len() == wins@.len(),
    ensures
        kept@ == select(wins@, |i: int| keep@[i]),
{
    let ghost flag = |i: int| keep@[i];
    let mut kept: Vec<Win> = Vec::new();
    let mut i: usize = 0;
    while i < wins.len()
        invariant
            0 <= i <= wins.len(),
            keep@.len() == wins@.len(),
            flag == (|k: int| keep@[k]),
            kept@ == select_upto(wins@, flag, i as int),
        decreases wins.len() - i,
    {
        if keep[i] {
            kept.push(wins[i].clone());
        }
        i += 1;
    }
    kept
}

// ---------- duplicate bounds ----------

/// Whole points of a coordinate, towards zero.
pub open spec fn whole_points(v: int) -> int {
    if v >= 0 {
        v / 1000
    } else {
        -((-v) / 1000)
    }
}

fn points(v: i32) -> (p: i64)
    ensures
        p == whole_points(v as int),
{
    let v: i64 = v as i64;
    if v >= 0 {
        v / 1000
    } else {
        -((-v) / 1000)
    }
}

/// Two windows of one app with the same bounds in whole points.
pub open spec fn same_place(a: Win, b: Win) -> bool {
    &&& a.pid == b.pid
    &&& whole_points(a.x as int) == whole_points(b.x as int)
    &&& whole_points(a.y as int) == whole_points(b.y as int)
    &&& whole_points(a.w as int) == whole_points(b.w as int)
    &&& whole_points(a.h as int) == whole_points(b.h as int)
}

pub open spec fn titled(w: Win) -> bool {
    w.title@.len() > 0
}

/// Of the windows in one place every titled one is real; where none is titled,
/// the frontmost stands for all.
pub open spec fn survives_dedup(wins: Seq<Win>, i: int) -> bool {
    ||| titled(wins[i])
    ||| forall|j: int|
        0 <= j < wins.len() && same_place(#[trigger] wins[j], wins[i]) ==> !titled(wins[j]) && i
            <= j
}

pub open spec fn deduped(wins: Seq<Win>) -> Seq<Win> {
    select(wins, |i: int| survives_dedup(wins, i))
}

fn in_same_place(a: &Win, b: &Win) -> (same: bool)
    ensures
        same == same_place(*a, *b),
{
    a.pid == b.pid && points(a.x) == points(b.x) && points(a.y) == points(b.y) && points(a.w)
        == points(b.w) && points(a.h) == points(b.h)
}

fn is_titled(w: &Win) -> (yes: bool)
    ensures
        yes == titled(*w),
{
    !w.title.as_str().is_empty()
}

fn dedup(wins: &Vec<Win>) -> (kept: Vec<Win>)
    ensures
        kept@ == deduped(wins@),
{
    let mut keep: Vec<bool> = Vec::new();
    let mut i: usize = 0;
    while i < wins.len()
        invariant
            0 <= i <= wins.len(),
            keep@.len() == i,
            forall|k: int| 0 <= k < i ==> #[trigger] keep@[k] == survives_dedup(wins@, k),
        decreases wins.len() - i,
    {
        let mut stays = true;
        if !is_titled(&wins[i]) {
            let mut j: usize = 0;
            while j < wins.len() && stays
                invariant
                    0 <= i < wins.len(),
                    0 <= j <= wins.len(),
                    !titled(wins@[i as int]),
                    stays ==> forall|k: int|
                        0 <= k < j && same_place(#[trigger] wins@[k], wins@[i as int]) ==> !titled(
                            wins@[k],
                        ) && i <= k,
                    !stays ==> !survives_dedup(wins@, i as int),
                decreases wins.len() - j,
            {
                if in_same_place(&wins[j], &wins[i]) && (is_titled(&wins[j]) || j < i) {
                    stays = false;
                }
                j += 1;
            }
        }
        keep.push(stays);
        i += 1;
    }
    proof {
        lemma_select_same(
            wins@,
            |k: int| keep@[k],
            |k: int| survives_dedup(wins@, k),
            wins@.len() as int,
        );
    }
    keep_flagged(wins, &keep)
}

// ---------- overlay layers ----------

/// `w` lies inside `o`, give or take the slack.
pub open spec fn contained(w: Win, o: Win) -> bool {
    &&& o.x <= w.x + CONTAIN_SLACK
    &&& o.y <= w.y + CONTAIN_SLACK
    &&& o.x + o.w >= w.x + w.w - CONTAIN_SLACK
    &&& o.y + o.h >= w.y + w.h - CONTAIN_SLACK
}

/// `w` covers less than 30 % of the area of `o`.
pub open spec fn much_smaller(w: Win, o: Win) -> bool {
    (w.w * w.h) * 10 < (o.w * o.h) * 3
}

/// Some window has a title. Without the permission to read titles none has.
pub open spec fn titles_available(wins: Seq<Win>) -> bool {
    exists|k: int| 0 <= k < wins.len() && titled(#[trigger] wins[k])
}

/// The window looks like an overlay layer of its app: it has no title although
/// titles can be read, it is translucent, or it is a small window inside
/// another window of the app.
pub open spec fn suspicious(wins: Seq<Win>, i: int) -> bool {
    ||| titles_available(wins) && !titled(wins[i])
    ||| wins[i].alpha < OVERLAY_ALPHA
    ||| exists|j: int|
        {
            &&& 0 <= j < wins.len()
            &&& j != i
            &&& (#[trigger] wins[j]).pid == wins[i].pid
            &&& contained(wins[i], wins[j])
            &&& much_smaller(wins[i], wins[j])
        }
}

pub open spec fn without_overlays(wins: Seq<Win>) -> Seq<Win> {
    select(wins, |i: int| !suspicious(wins, i))
}

fn is_inside(w: &Win, o: &Win) -> (inside: bool)
    ensures
        inside == contained(*w, *o),
{
    o.x as i64 <= w.x as i64 + CONTAIN_SLACK && o.y as i64 <= w.y as i64 + CONTAIN_SLACK && o.x as i64
        + o.w as i64 >= w.x as i64 + w.w as i64 - CONTAIN_SLACK && o.y as i64 + o.h as i64
        >= w.y as i64 + w.h as i64 - CONTAIN_SLACK
}

proof fn lemma_area_bounds(w: i32, h: i32)
    ensures
        -0x4000_0000_0000_0000 <= w * h <= 0x4000_0000_0000_0000,
{
    assert(-0x4000_0000_0000_0000 <= w * h <= 0x4000_0000_0000_0000) by (nonlinear_arith)
        requires
            -0x8000_0000 <= w <= 0x7fff_ffff,
            -0x8000_0000 <= h <= 0x7fff_ffff,
    ;
}

fn is_much_smaller(w: &Win, o: &Win) -> (smaller: bool)
    ensures
        smaller == much_smaller(*w, *o),
{
    proof {
        lemma_area_bounds(w.w, w.h);
        lemma_area_bounds(o.w, o.h);
    }
    let a: i128 = ((w.w as i64) * (w.h as i64)) as i128;
    let b: i128 = ((o.w as i64) * (o.h as i64)) as i128;
    a * 10 < b * 3
}

fn any_titled(wins: &Vec<Win>) -> (any: bool)
    ensures
        any == titles_available(wins@),
{
    let mut k: usize = 0;
    while k < wins.len()
        invariant
            0 <= k <= wins.len(),
            forall|j: int| 0 <= j < k ==> !titled(#[trigger] wins@[j]),
        decreases wins.len() - k,
    {
        if is_titled(&wins[k]) {
            return true;
        }
        k += 1;
    }
    false
}

fn drop_overlays(wins: &Vec<Win>) -> (kept: Vec<Win>)
    ensures
        kept@ == without_overlays(wins@),
{
    let titles = any_titled(wins);
    let mut keep: Vec<bool> = Vec::new();
    let mut i: usize = 0;
    while i < wins.len()
        invariant
            0 <= i <= wins.len(),
            titles == titles_available(wins@),
            keep@.len() == i,
            forall|k: int| 0 <= k < i ==> #[trigger] keep@[k] == !suspicious(wins@, k),
        decreases wins.len() - i,
    {
        let w = &wins[i];
        let mut odd = (titles && !is_titled(w)) || w.alpha < OVERLAY_ALPHA;
        let mut j: usize = 0;
        while j < wins.len() && !odd
            invariant
                0 <= i < wins.len(),
                0 <= j <= wins.len(),
                *w == wins@[i as int],
                titles == titles_available(wins@),
                odd ==> suspicious(wins@, i as int),
                !odd ==> !(titles && !titled(*w)) && w.alpha >= OVERLAY_ALPHA && forall|k: int|
                    0 <= k < j && k != i && (#[trigger] wins@[k]).pid == w.pid ==> !(contained(
                        *w,
                        wins@[k],
                    ) && much_smaller(*w, wins@[k])),
            decreases wins.len() - j,
        {
            if i != j && wins[j].pid == w.pid && is_inside(w, &wins[j]) && is_much_smaller(
                w,
                &wins[j],
            ) {
                odd = true;
            }
            j += 1;
        }
        keep.push(!odd);
        i += 1;
    }
    proof {
        lemma_select_same(
            wins@,
            |k: int| keep@[k],
            |k: int| !suspicious(wins@, k),
            wins@.len() as int,
        );
    }
    keep_flagged(wins, &keep)
}

// ---------- one window per app ----------

pub open spec fn app_in(wins: Seq<Win>, pid: i32) -> bool {
    exists|k: int| 0 <= k < wins.len() && (#[trigger] wins[k]).pid == pid
}

/// The window at `i` is its app's main window: the frontmost titled one, or
/// the frontmost one where none is titled.
pub open spec fn is_main(wins: Seq<Win>, i: int) -> bool {
    forall|j: int|
        0 <= j < wins.len() && (#[trigger] wins[j]).pid == wins[i].pid ==> if titled(wins[i]) {
            titled(wins[j]) ==> i <= j
        } else {
            !titled(wins[j]) && i <= j
        }
}

/// The main windows of the apps that have no window left in `rest`.
pub open spec fn rescued(basic: Seq<Win>, rest: Seq<Win>) -> Seq<Win> {
    select(basic, |i: int| is_main(basic, i) && !app_in(rest, basic[i].pid))
}

/// The real windows of a list, in order: those that pass the basic filter,
/// without duplicates and overlay layers; an app that would lose all of its
/// windows keeps its main window, which then comes last.
pub open spec fn sanitized(wins: Seq<Win>, cfg: &Config) -> Seq<Win> {
    let basic = wins.filter(|w: Win| passes_basic(w, cfg));
    let rest = without_overlays(deduped(basic));
    rest + rescued(basic, rest)
}

fn has_app(wins: &Vec<Win>, pid: i32) -> (found: bool)
    ensures
        found == app_in(wins@, pid),
{
    let mut k: usize = 0;
    while k < wins.len()
        invariant
            0 <= k <= wins.len(),
            forall|j: int| 0 <= j < k ==> (#[trigger] wins@[j]).pid != pid,
        decreases wins.len() - k,
    {
        if wins[k].pid == pid {
            return true;
        }
        k += 1;
    }
    false
}

fn main_window(wins: &Vec<Win>, i: usize) -> (main: bool)
    requires
        i < wins@.len(),
    ensures
        main == is_main(wins@, i as int),
{
    let has_title = is_titled(&wins[i]);
    let mut j: usize = 0;
    while j < wins.len()
        invariant
            i < wins@.len(),
            0 <= j <= wins.len(),
            has_title == titled(wins@[i as int]),
            forall|k: int|
                0 <= k < j && (#[trigger] wins@[k]).pid == wins@[i as int].pid ==> if has_title {
                    titled(wins@[k]) ==> i <= k
                } else {
                    !titled(wins@[k]) && i <= k
                },
        decreases wins.len() - j,
    {
        if wins[j].pid == wins[i].pid {
            let other_titled = is_titled(&wins[j]);
            if has_title {
                if other_titled && j < i {
                    assert(!is_main(wins@, i as int));
                    return false;
                }
            } else if other_titled || j < i {
                assert(!is_main(wins@, i as int));
                return false;
            }
        }
        j += 1;
    }
    true
}

fn keep_basic(wins: &Vec<Win>, cfg: &Config) -> (kept: Vec<Win>)
    ensures
        kept@ == wins@.filter(|w: Win| passes_basic(w, cfg)),
{
    let ghost ok = |w: Win| passes_basic(w, cfg);
    let mut kept: Vec<Win> = Vec::new();
    let mut i: usize = 0;
    proof {
        reveal(Seq::filter);
        assert(wins@.take(0) =~= Seq::<Win>::empty());
    }
    while i < wins.len()
        invariant
            0 <= i <= wins.len(),
            ok == (|w: Win| passes_basic(w, cfg)),
            kept@ == wins@.take(i as int).filter(ok),
        decreases wins.len() - i,
    {
        proof {
            reveal(Seq::filter);
            assert(wins@.take(i + 1).drop_last() =~= wins@.take(i as int));
        }
        if basic_ok(&wins[i], cfg) {
            kept.push(wins[i].clone());
        }
        i += 1;
    }
    assert(wins@.take(wins@.len() as int) =~= wins@);
    kept
}

/// Filter out everything that is not a real window.
///
/// All surviving windows are kept: the switcher shows every active window, not
/// one per app. An app with at least one window that passes the basic filter
/// always keeps a window.
pub fn sanitize(wins: &mut Vec<Win>, cfg: &Config)
    ensures
        final(wins)@ == sanitized(old(wins)@, cfg),
{
    let basic = keep_basic(wins, cfg);
    let unique = dedup(&basic);
    let rest = drop_overlays(&unique);
    let mut rescue: Vec<bool> = Vec::new();
    let mut i: usize = 0;
    while i < basic.len()
        invariant
            0 <= i <= basic.len(),
            rescue@.len() == i,
            forall|k: int|
                0 <= k < i ==> #[trigger] rescue@[k] == (is_main(basic@, k) && !app_in(
                    rest@,
                    basic@[k].pid,
                )),
        decreases basic.len() - i,
    {
        rescue.push(main_window(&basic, i) && !has_app(&rest, basic[i].pid));
        i += 1;
    }
    proof {
        lemma_select_same(
            basic@,
            |k: int| rescue@[k],
            |k: int| is_main(basic@, k) && !app_in(rest@, basic@[k].pid),
            basic@.len() as int,
        );
    }
    let mut mains = keep_flagged(&basic, &rescue);
    let mut all = rest;
    all.append(&mut mains);
    *wins = all;
}

// ---------- scoping ----------

/// The window's centre lies inside `b` (x, y, w, h; edges included).
pub open spec fn centre_inside(w: Win, b: (i32, i32, i32, i32)) -> bool {
    &&& 2 * b.0 <= 2 * w.x + w.w <= 2 * (b.0 + b.2)
    &&& 2 * b.1 <= 2 * w.y + w.h <= 2 * (b.1 + b.3)
}

/// True when the window's centre lies inside the display's frame.
pub fn center_in_bounds(w: &Win, b: (i32, i32, i32, i32)) -> (inside: bool)
    ensures
        inside == centre_inside(*w, b),
{
    let cx: i64 = 2 * (w.x as i64) + w.w as i64;
    let cy: i64 = 2 * (w.y as i64) + w.h as i64;
    cx >= 2 * (b.0 as i64) && cx <= 2 * (b.0 as i64 + b.2 as i64) && cy >= 2 * (b.1 as i64) && cy
        <= 2 * (b.1 as i64 + b.3 as i64)
}

pub open spec fn on_display(w: Win, display: Option<(i32, i32, i32, i32)>) -> bool {
    match display {
        Some(b) => centre_inside(w, b),
        None => true,
    }
}

/// Number of windows of an app.
pub open spec fn app_count(wins: Seq<Win>, pid: i32) -> nat {
    wins.filter(|w: Win| w.pid == pid).len()
}

/// Width over height in millionths, kept between 0.4 and 3.
pub open spec fn aspect_of(w: Win) -> u32 {
    let raw = if w.h > 1_000 {
        w.w * 1_000_000 / (w.h as int)
    } else {
        1_000_000
    };
    if raw < 400_000 {
        400_000
    } else if raw > 3_000_000 {
        3_000_000
    } else {
        raw as u32
    }
}

/// The switcher's entry for a window of an app with `n` windows.
pub open spec fn item_of(w: Win, n: nat) -> Item {
    Item {
        id: w.id,
        pid: w.pid,
        owner: w.owner,
        title: w.title,
        aspect: aspect_of(w),
        x: w.x,
        y: w.y,
        w: w.w,
        h: w.h,
        n_same_pid: n as usize,
    }
}

/// The app whose windows an app switcher lists.
pub open spec fn front_app(front_pid: Option<i32>) -> int {
    match front_pid {
        Some(p) => p as int,
        None => -1,
    }
}

/// The window is listed: it is on the display, and in app mode it belongs to
/// the frontmost app, which is a real app other than the switcher itself.
pub open spec fn listed(
    w: Win,
    mode: Mode,
    display: Option<(i32, i32, i32, i32)>,
    front_pid: Option<i32>,
    our_pid: u32,
) -> bool {
    &&& on_display(w, display)
    &&& mode is App ==> front_app(front_pid) > 0 && front_app(front_pid) != our_pid as i32 && w.pid
        == front_app(front_pid)
}

/// The entries of the switcher in window order. The window count of an app is
/// taken over all of `wins`, not over the listed ones.
pub open spec fn scoped(
    wins: Seq<Win>,
    mode: Mode,
    display: Option<(i32, i32, i32, i32)>,
    front_pid: Option<i32>,
    our_pid: u32,
) -> Seq<Item> {
    wins.filter(|w: Win| listed(w, mode, display, front_pid, our_pid)).map_values(
        |w: Win| item_of(w, app_count(wins, w.pid)),
    )
}

fn count_app(wins: &Vec<Win>, pid: i32) -> (n: usize)
    ensures
        n == app_count(wins@, pid),
{
    let ghost mine = |w: Win| w.pid == pid;
    let mut n: usize = 0;
    let mut i: usize = 0;
    proof {
        reveal(Seq::filter);
        assert(wins@.take(0) =~= Seq::<Win>::empty());
    }
    while i < wins.len()
        invariant
            0 <= i <= wins.len(),
            n <= i,
            mine == (|w: Win| w.pid == pid),
            n == wins@.take(i as int).filter(mine).len(),
        decreases wins.len() - i,
    {
        proof {
            reveal(Seq::filter);
            assert(wins@.take(i + 1).drop_last() =~= wins@.take(i as int));
        }
        if wins[i].pid == pid {
            n += 1;
        }
        i += 1;
    }
    assert(wins@.take(wins@.len() as int) =~= wins@);
    n
}

fn item_from(w: &Win, n_same_pid: usize) -> (item: Item)
    ensures
        item == item_of(*w, n_same_pid as nat),
{
    let aspect: u32 = if w.h > 1_000 {
        if w.w <= 0 {
            proof {
                assert(w.w * 1_000_000 / (w.h as int) <= 0) by (nonlinear_arith)
                    requires
                        w.w <= 0,
                        w.h > 0,
                ;
            }
            400_000
        } else {
            let raw: i64 = (w.w as i64) * 1_000_000 / (w.h as i64);
            if raw < 400_000 {
                400_000
            } else if raw > 3_000_000 {
                3_000_000
            } else {
                raw as u32
            }
        }
    } else {
        1_000_000
    };
    Item {
        id: w.id,
        pid: w.pid,
        owner: w.owner.clone(),
        title: w.title.clone(),
        aspect,
        x: w.x,
        y: w.y,
        w: w.w,
        h: w.h,
        n_same_pid,
    }
}

/// Count every app's windows, limit the list to one display and one mode, and
/// turn the windows into entries.
///
/// The counts are taken before limiting the list: an app with one window on
/// each of two displays has two windows, so that switching to one of them does
/// not raise the other as well. A display that shows none of the windows gives
/// an empty list.
pub fn scope_and_annotate(
    wins: Vec<Win>,
    mode: Mode,
    display: Option<(i32, i32, i32, i32)>,
    front_pid: Option<i32>,
    our_pid: u32,
) -> (items: Vec<Item>)
    ensures
        items@ == scoped(wins@, mode, display, front_pid, our_pid),
{
    let front: i32 = match front_pid {
        Some(p) => p,
        None => -1,
    };
    let no_app: bool = mode == Mode::App && (front <= 0 || front == our_pid as i32);
    let ghost pick = |w: Win| listed(w, mode, display, front_pid, our_pid);
    let ghost to_item = |w: Win| item_of(w, app_count(wins@, w.pid));
    let mut items: Vec<Item> = Vec::new();
    let mut i: usize = 0;
    proof {
        reveal(Seq::filter);
        assert(wins@.take(0) =~= Seq::<Win>::empty());
    }
    assert(items@ =~= wins@.take(0).filter(pick).map_values(to_item));
    while i < wins.len()
        invariant
            0 <= i <= wins.len(),
            front == front_app(front_pid),
            no_app == (mode is App && (front <= 0 || front == our_pid as i32)),
            pick == (|w: Win| listed(w, mode, display, front_pid, our_pid)),
            to_item == (|w: Win| item_of(w, app_count(wins@, w.pid))),
            items@ == wins@.take(i as int).filter(pick).map_values(to_item),
        decreases wins.len() - i,
    {
        let w = &wins[i];
        let inside = match display {
            Some(b) => center_in_bounds(w, b),
            None => true,
        };
        let ghost done = wins@.take(i as int).filter(pick);
        proof {
            reveal(Seq::filter);
            assert(wins@.take(i + 1).drop_last() =~= wins@.take(i as int));
        }
        if inside && !no_app && (mode == Mode::Space || w.pid == front) {
            let n = count_app(&wins, w.pid);
            items.push(item_from(w, n));
            assert(pick(*w));
            assert(items@ =~= done.push(*w).map_values(to_item));
        }
        i += 1;
    }
    assert(wins@.take(wins@.len() as int) =~= wins@);
    items
}

/// The entries of the switcher for a window list.
pub open spec fn collected(
    wins: Seq<Win>,
    cfg: &Config,
    mode: Mode,
    our_pid: u32,
    display: Option<(i32, i32, i32, i32)>,
    front_pid: Option<i32>,
) -> Seq<Item> {
    scoped(
        sanitized(wins.filter(|w: Win| w.pid != our_pid as i32), cfg),
        mode,
        display,
        front_pid,
        our_pid,
    )
}

/// Collect the entries of the switcher from the on-screen window list `wins`
/// (front to back), leaving out the switcher's own windows.
pub fn collect(
    wins: &Vec<Win>,
    cfg: &Config,
    mode: Mode,
    our_pid: u32,
    display: Option<(i32, i32, i32, i32)>,
    front_pid: Option<i32>,
) -> (items: Vec<Item>)
    ensures
        items@ == collected(wins@, cfg, mode, our_pid, display, front_pid),
{
    let ghost foreign = |w: Win| w.pid != our_pid as i32;
    let mut others: Vec<Win> = Vec::new();
    let mut i: usize = 0;
    proof {
        reveal(Seq::filter);
        assert(wins@.take(0) =~= Seq::<Win>::empty());
    }
    while i < wins.len()
        invariant
            0 <= i <= wins.len(),
            foreign == (|w: Win| w.pid != our_pid as i32),
            others@ == wins@.take(i as int).filter(foreign),
        decreases wins.len() - i,
    {
        proof {
            reveal(Seq::filter);
            assert(wins@.take(i + 1).drop_last() =~= wins@.take(i as int));
        }
        if wins[i].pid != our_pid as i32 {
            others.push(wins[i].clone());
        }
        i += 1;
    }
    assert(wins@.take(wins@.len() as int) =~= wins@);
    sanitize(&mut others, cfg);
    scope_and_annotate(others, mode, display, front_pid, our_pid)
}

// ---------- window ids ----------

pub open spec fn sorted(ids: Seq<u32>) -> bool {
    forall|i: int, j: int| 0 <= i <= j < ids.len() ==> ids[i] <= ids[j]
}

pub open spec fn strictly_sorted(ids: Seq<u32>) -> bool {
    forall|i: int, j: int| 0 <= i < j < ids.len() ==> ids[i] < ids[j]
}

/// Put `id` behind the ids that are not larger.
fn insert_sorted(ids: &mut Vec<u32>, id: u32)
    requires
        sorted(old(ids)@),
    ensures
        sorted(final(ids)@),
        final(ids)@.to_multiset() == old(ids)@.to_multiset().insert(id),
{
    let mut k: usize = 0;
    while k < ids.len() && ids[k] <= id
        invariant
            ids@ == old(ids)@,
            0 <= k <= ids.len(),
            forall|j: int| 0 <= j < k ==> ids@[j] <= id,
        decreases ids.len() - k,
    {
        k += 1;
    }
    let ghost before = ids@;
    ids.insert(k, id);
    proof {
        ids@.to_multiset_ensures();
        assert(ids@.remove(k as int) =~= before);
        assert(ids@[k as int] == id);
        assert(ids@.contains(id));
        assert(ids@.to_multiset().count(id) > 0);
        assert(ids@.to_multiset() =~= before.to_multiset().insert(id));
    }
}

/// Put `id` in its place unless it is there already.
fn insert_unique(ids: &mut Vec<u32>, id: u32)
    requires
        strictly_sorted(old(ids)@),
    ensures
        strictly_sorted(final(ids)@),
        forall|x: u32| #[trigger] final(ids)@.contains(x) <==> old(ids)@.contains(x) || x == id,
{
    let mut k: usize = 0;
    while k < ids.len() && ids[k] < id
        invariant
            ids@ == old(ids)@,
            0 <= k <= ids.len(),
            forall|j: int| 0 <= j < k ==> ids@[j] < id,
        decreases ids.len() - k,
    {
        k += 1;
    }
    if k < ids.len() && ids[k] == id {
        assert(ids@.contains(id));
        return;
    }
    let ghost before = ids@;
    ids.insert(k, id);
    proof {
        assert forall|x: u32| #[trigger] ids@.contains(x) <==> before.contains(x) || x == id by {
            if before.contains(x) {
                let j = choose|j: int| 0 <= j < before.len() && before[j] == x;
                if j < k {
                    assert(ids@[j] == x);
                } else {
                    assert(ids@[j + 1] == x);
                }
            }
            if x == id {
                assert(ids@[k as int] == x);
            }
            if ids@.contains(x) && x != id {
                let j = choose|j: int| 0 <= j < ids@.len() && ids@[j] == x;
                if j < k {
                    assert(before[j] == x);
                } else {
                    assert(before[j - 1] == x);
                }
            }
        }
    }
}

/// A window of another process that passes the basic filter.
pub open spec fn warm(w: Win, cfg: &Config, our_pid: u32) -> bool {
    w.pid != our_pid as i32 && passes_basic(w, cfg)
}

/// Sorted ids of the on-screen windows that pass the basic filter, each once.
///
/// This cheap list keeps the set of captured windows warm between two shows;
/// the overlay heuristics are left out because every show collects again.
pub fn onscreen_window_ids(wins: &Vec<Win>, cfg: &Config, our_pid: u32) -> (ids: Vec<u32>)
    ensures
        strictly_sorted(ids@),
        forall|id: u32| #[trigger]
            ids@.contains(id) <==> exists|k: int|
                0 <= k < wins@.len() && warm(#[trigger] wins@[k], cfg, our_pid) && wins@[k].id
                    == id,
{
    let mut ids: Vec<u32> = Vec::new();
    let mut i: usize = 0;
    while i < wins.len()
        invariant
            0 <= i <= wins.len(),
            strictly_sorted(ids@),
            forall|id: u32| #[trigger]
                ids@.contains(id) <==> exists|k: int|
                    0 <= k < i && warm(#[trigger] wins@[k], cfg, our_pid) && wins@[k].id == id,
        decreases wins.len() - i,
    {
        let w = &wins[i];
        let ghost before = ids@;
        if w.pid != our_pid as i32 && basic_ok(w, cfg) {
            insert_unique(&mut ids, w.id);
        }
        proof {
            assert forall|id: u32| #[trigger] ids@.contains(id) <==> exists|k: int|
                0 <= k < i + 1 && warm(#[trigger] wins@[k], cfg, our_pid) && wins@[k].id == id by {
                if before.contains(id) {
                    let k = choose|k: int|
                        0 <= k < i && warm(#[trigger] wins@[k], cfg, our_pid) && wins@[k].id == id;
                    assert(warm(wins@[k], cfg, our_pid));
                }
            }
        }
        i += 1;
    }
    ids
}

/// A window in the normal layer on the display, system furniture excluded.
pub open spec fn fingerprinted(w: Win, display: (i32, i32, i32, i32)) -> bool {
    w.layer == 0 && !noise_owner(w.owner@) && centre_inside(w, display)
}

/// Sorted ids of the windows on `display`, the fingerprint by which a desktop
/// switch is noticed while the overlay is visible.
pub fn display_window_ids(wins: &Vec<Win>, display: (i32, i32, i32, i32)) -> (ids: Vec<u32>)
    ensures
        sorted(ids@),
        ids@.to_multiset() == wins@.filter(|w: Win| fingerprinted(w, display)).map_values(
            |w: Win| w.id,
        ).to_multiset(),
{
    let ghost pick = |w: Win| fingerprinted(w, display);
    let ghost id_of = |w: Win| w.id;
    let mut ids: Vec<u32> = Vec::new();
    let mut i: usize = 0;
    proof {
        reveal(Seq::filter);
        assert(wins@.take(0) =~= Seq::<Win>::empty());
        assert(ids@ =~= wins@.take(0).filter(pick).map_values(id_of));
    }
    while i < wins.len()
        invariant
            0 <= i <= wins.len(),
            pick == (|w: Win| fingerprinted(w, display)),
            id_of == (|w: Win| w.id),
            sorted(ids@),
            ids@.to_multiset() == wins@.take(i as int).filter(pick).map_values(id_of).to_multiset(),
        decreases wins.len() - i,
    {
        let w = &wins[i];
        let ghost done = wins@.take(i as int).filter(pick);
        proof {
            reveal(Seq::filter);
            assert(wins@.take(i + 1).drop_last() =~= wins@.take(i as int));
        }
        if w.layer == 0 && !is_noise_owner(&w.owner) && center_in_bounds(w, display) {
            insert_sorted(&mut ids, w.id);
            proof {
                assert(pick(*w));
                assert(done.push(*w).map_values(id_of) =~= done.map_values(id_of).push(w.id));
                done.map_values(id_of).to_multiset_ensures();
            }
        }
        i += 1;
    }
    assert(wins@.take(wins@.len() as int) =~= wins@);
    ids
}

} // verus!
