//! Finding the accessibility element of a window, and how to activate its app.

use crate::state::Item;
use crate::util;
use vstd::prelude::*;

verus! {

/// What the accessibility API says about one window of an app.
#[derive(Debug)]
pub struct AxWin {
    /// Process the element belongs to, when it says so.
    pub pid: Option<i32>,
    /// Position and size in milli-points.
    pub bounds: Option<(i32, i32, i32, i32)>,
    pub title: Option<String>,
}

/// How far a window's two positions may lie apart.
pub const POSITION_SLACK: i64 = 6_000;

/// How far a window's two sizes may differ.
pub const SIZE_SLACK: i64 = 8_000;

pub open spec fn near(a: int, b: int, slack: int) -> bool {
    -slack <= a - b <= slack
}

fn is_near(a: i32, b: i32, slack: i64) -> (yes: bool)
    ensures
        yes == near(a as int, b as int, slack as int),
{
    let d: i128 = a as i128 - b as i128;
    d <= slack as i128 && d >= -(slack as i128)
}

/// The accessibility bounds match the entry's bounds closely enough.
pub open spec fn matches_bounds(item: Item, b: (i32, i32, i32, i32)) -> bool {
    &&& near(b.0 as int, item.x as int, POSITION_SLACK as int)
    &&& near(b.1 as int, item.y as int, POSITION_SLACK as int)
    &&& near(b.2 as int, item.w as int, SIZE_SLACK as int)
    &&& near(b.3 as int, item.h as int, SIZE_SLACK as int)
}

pub fn bounds_match(item: &Item, x: i32, y: i32, w: i32, h: i32) -> (ok: bool)
    ensures
        ok == matches_bounds(*item, (x, y, w, h)),
{
    is_near(x, item.x, POSITION_SLACK) && is_near(y, item.y, POSITION_SLACK) && is_near(
        w,
        item.w,
        SIZE_SLACK,
    ) && is_near(h, item.h, SIZE_SLACK)
}

/// `found` is the first of the positions `0..n` that `good` accepts.
pub open spec fn is_first(n: int, good: spec_fn(int) -> bool, found: Option<usize>) -> bool {
    match found {
        Some(i) => i < n && good(i as int) && forall|k: int| 0 <= k < i ==> !#[trigger] good(k),
        None => forall|k: int| 0 <= k < n ==> !#[trigger] good(k),
    }
}

/// Find the element whose window id is the entry's. This is authoritative:
/// bounds cannot tell two windows of one size apart.
pub fn target_by_id(item: &Item, ids: &Vec<Option<u32>>) -> (found: Option<usize>)
    ensures
        is_first(ids@.len() as int, |k: int| ids@[k] == Some(item.id), found),
{
    let mut i: usize = 0;
    while i < ids.len()
        invariant
            0 <= i <= ids.len(),
            forall|k: int| 0 <= k < i ==> #[trigger] ids@[k] != Some(item.id),
        decreases ids.len() - i,
    {
        if ids[i] == Some(item.id) {
            return Some(i);
        }
        i += 1;
    }
    None
}

/// The element belongs to the entry's process, or does not say.
pub open spec fn own_process(item: Item, win: AxWin) -> bool {
    win.pid is None || win.pid == Some(item.pid)
}

pub open spec fn at_place(item: Item, win: AxWin) -> bool {
    win.bounds matches Some(b) && matches_bounds(item, b)
}

pub open spec fn same_title(item: Item, win: AxWin) -> bool {
    win.title matches Some(t) && util::trimmed(t@) == util::trimmed(item.title@)
}

/// Process, place and title all match.
pub open spec fn full_match(item: Item, win: AxWin) -> bool {
    own_process(item, win) && at_place(item, win) && same_title(item, win)
}

/// The element that stands for the entry when no id matched: the first one
/// whose process, place and title match (for a titled entry); else the first
/// in place that may belong to the process; else the first in place.
pub open spec fn is_target(item: Item, wins: Seq<AxWin>, found: Option<usize>) -> bool {
    let n = wins.len() as int;
    if item.title@.len() > 0 && exists|k: int|
        0 <= k < n && full_match(item, #[trigger] wins[k]) {
        is_first(n, |k: int| full_match(item, wins[k]), found)
    } else if exists|k: int|
        0 <= k < n && at_place(item, #[trigger] wins[k]) && own_process(item, wins[k]) {
        is_first(n, |k: int| at_place(item, wins[k]) && own_process(item, wins[k]), found)
    } else {
        is_first(n, |k: int| at_place(item, wins[k]), found)
    }
}

fn is_own_process(item: &Item, win: &AxWin) -> (yes: bool)
    ensures
        yes == own_process(*item, *win),
{
    match win.pid {
        Some(p) => p == item.pid,
        None => true,
    }
}

fn is_at_place(item: &Item, win: &AxWin) -> (yes: bool)
    ensures
        yes == at_place(*item, *win),
{
    match win.bounds {
        Some((x, y, w, h)) => bounds_match(item, x, y, w, h),
        None => false,
    }
}

fn has_same_title(item: &Item, win: &AxWin) -> (yes: bool)
    ensures
        yes == same_title(*item, *win),
{
    match &win.title {
        Some(t) => util::same_text(util::trim(t), util::trim(&item.title)),
        None => false,
    }
}

/// Find the element of an entry by process, place and title.
pub fn target_by_details(item: &Item, wins: &Vec<AxWin>) -> (found: Option<usize>)
    ensures
        is_target(*item, wins@, found),
{
    if !item.title.as_str().is_empty() {
        let mut i: usize = 0;
        while i < wins.len()
            invariant
                0 <= i <= wins.len(),
                item.title@.len() > 0,
                forall|k: int| 0 <= k < i ==> !full_match(*item, #[trigger] wins@[k]),
            decreases wins.len() - i,
        {
            let w = &wins[i];
            if is_own_process(item, w) && is_at_place(item, w) && has_same_title(item, w) {
                assert(full_match(*item, wins@[i as int]));
                return Some(i);
            }
            i += 1;
        }
    }
    let mut any: Option<usize> = None;
    let mut i: usize = 0;
    while i < wins.len()
        invariant
            0 <= i <= wins.len(),
            item.title@.len() == 0 || forall|k: int|
                0 <= k < wins@.len() ==> !full_match(*item, #[trigger] wins@[k]),
            forall|k: int|
                0 <= k < i ==> !(at_place(*item, #[trigger] wins@[k]) && own_process(
                    *item,
                    wins@[k],
                )),
            is_first(i as int, |k: int| at_place(*item, wins@[k]), any),
        decreases wins.len() - i,
    {
        let w = &wins[i];
        let ghost here = |k: int| at_place(*item, wins@[k]);
        if is_at_place(item, w) {
            if any.is_none() {
                any = Some(i);
                assert(here(i as int));
            }
            if is_own_process(item, w) {
                assert(at_place(*item, wins@[i as int]) && own_process(*item, wins@[i as int]));
                return Some(i);
            }
        }
        proof {
            assert forall|k: int| 0 <= k < i + 1 && any is None implies !#[trigger] here(k) by {
                if k < i {
                    assert(!here(k));
                }
            }
            assert(is_first(i + 1, here, any));
        }
        i += 1;
    }
    any
}

/// `ActivateIgnoringOtherApps`.
pub const ACTIVATE_APP: u64 = 2;

/// `ActivateIgnoringOtherApps | ActivateAllWindows`.
pub const ACTIVATE_ALL_WINDOWS: u64 = 3;

/// An app with a single window needs no particular window raised.
pub fn needs_raise(item: &Item) -> (raise: bool)
    ensures
        raise == (item.n_same_pid > 1),
{
    item.n_same_pid > 1
}

/// How the app of an entry is activated.
pub open spec fn options_for(item: Item, raise_ok: bool, focus_ok: bool) -> u64 {
    if item.n_same_pid > 1 && (raise_ok || focus_ok) {
        ACTIVATE_APP
    } else {
        ACTIVATE_ALL_WINDOWS
    }
}

/// How to activate the app of an entry: all of its windows come forward unless
/// the one window could be raised or focused.
pub fn activation_options(item: &Item, raise_ok: bool, focus_ok: bool) -> (opts: u64)
    ensures
        opts == options_for(*item, raise_ok, focus_ok),
{
    if needs_raise(item) && (raise_ok || focus_ok) {
        ACTIVATE_APP
    } else {
        ACTIVATE_ALL_WINDOWS
    }
}

} // verus!
