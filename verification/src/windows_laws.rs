//! What holds of every sanitised and scoped window list.

use crate::config::Config;
use crate::state::{Item, Mode};
use crate::util;
use crate::windows;
use crate::windows::Win;
use vstd::prelude::*;

verus! {

/// The windows of `wins` that pass the basic filter.
pub open spec fn basic(wins: Seq<Win>, cfg: &Config) -> Seq<Win> {
    wins.filter(|w: Win| windows::passes_basic(w, cfg))
}

/// What is left of them without duplicates and overlay layers.
pub open spec fn plain(wins: Seq<Win>, cfg: &Config) -> Seq<Win> {
    windows::without_overlays(windows::deduped(basic(wins, cfg)))
}

/// Every window left in the plain list comes from the basic list.
proof fn lemma_plain_from_basic(wins: Seq<Win>, cfg: &Config, k: int) -> (i: int)
    requires
        0 <= k < plain(wins, cfg).len(),
    ensures
        0 <= i < basic(wins, cfg).len(),
        plain(wins, cfg)[k] == basic(wins, cfg)[i],
        windows::survives_dedup(basic(wins, cfg), i),
{
    let b = basic(wins, cfg);
    let d = windows::deduped(b);
    let j = windows::lemma_selected_from(
        d,
        |i: int| !windows::suspicious(d, i),
        d.len() as int,
        k,
    );
    windows::lemma_selected_from(b, |i: int| windows::survives_dedup(b, i), b.len() as int, j)
}

proof fn lemma_rescued_from_basic(b: Seq<Win>, rest: Seq<Win>, k: int) -> (i: int)
    requires
        0 <= k < windows::rescued(b, rest).len(),
    ensures
        0 <= i < b.len(),
        windows::rescued(b, rest)[k] == b[i],
        windows::is_main(b, i),
        !windows::app_in(rest, b[i].pid),
{
    windows::lemma_selected_from(
        b,
        |i: int| windows::is_main(b, i) && !windows::app_in(rest, b[i].pid),
        b.len() as int,
        k,
    )
}

/// Nothing is made up: every sanitised window is a window of the list that
/// passes the basic filter.
pub proof fn law_sanitize_only_filters(wins: Seq<Win>, cfg: &Config, k: int)
    requires
        0 <= k < windows::sanitized(wins, cfg).len(),
    ensures
        wins.contains(windows::sanitized(wins, cfg)[k]),
        windows::passes_basic(windows::sanitized(wins, cfg)[k], cfg),
{
    let b = basic(wins, cfg);
    let rest = plain(wins, cfg);
    let w = windows::sanitized(wins, cfg)[k];
    let ok = |w: Win| windows::passes_basic(w, cfg);
    if k < rest.len() {
        let i = lemma_plain_from_basic(wins, cfg, k);
        assert(b[i] == w);
    } else {
        let i = lemma_rescued_from_basic(b, rest, k - rest.len());
        assert(b[i] == w);
    }
    assert(b.contains(w));
    wins.lemma_filter_contains_rev(ok, w);
    let i = choose|i: int| 0 <= i < b.len() && b[i] == w;
    broadcast use vstd::seq_lib::group_filter_ensures;

    assert(ok(b[i]));
}

/// Some window of an app of the list is its main window.
pub proof fn lemma_has_main(b: Seq<Win>, pid: i32) -> (m: int)
    requires
        windows::app_in(b, pid),
    ensures
        0 <= m < b.len(),
        b[m].pid == pid,
        windows::is_main(b, m),
{
    if exists|k: int| 0 <= k < b.len() && (#[trigger] b[k]).pid == pid && windows::titled(b[k]) {
        let k = choose|k: int|
            0 <= k < b.len() && (#[trigger] b[k]).pid == pid && windows::titled(b[k]);
        let good = |i: int| b[i].pid == pid && windows::titled(b[i]);
        let m = lemma_first(b, good, k);
        assert forall|j: int|
            0 <= j < b.len() && (#[trigger] b[j]).pid == b[m].pid && windows::titled(
                b[j],
            ) implies m <= j by {
            assert(good(j));
        }
        m
    } else {
        let k = choose|k: int| 0 <= k < b.len() && (#[trigger] b[k]).pid == pid;
        let good = |i: int| b[i].pid == pid;
        let m = lemma_first(b, good, k);
        assert forall|j: int| 0 <= j < b.len() && (#[trigger] b[j]).pid == b[m].pid implies m
            <= j by {
            assert(good(j));
        }
        m
    }
}

/// The first position that `good` accepts.
proof fn lemma_first(b: Seq<Win>, good: spec_fn(int) -> bool, k: int) -> (m: int)
    requires
        0 <= k < b.len(),
        good(k),
    ensures
        0 <= m <= k,
        good(m),
        forall|i: int| 0 <= i < m ==> !#[trigger] good(i),
    decreases k,
{
    if exists|i: int| 0 <= i < k && #[trigger] good(i) {
        let i = choose|i: int| 0 <= i < k && #[trigger] good(i);
        lemma_first(b, good, i)
    } else {
        k
    }
}

/// An app with a window that passes the basic filter never vanishes, and no
/// app turns up that had none.
pub proof fn law_no_app_vanishes(wins: Seq<Win>, cfg: &Config, pid: i32)
    ensures
        windows::app_in(windows::sanitized(wins, cfg), pid) <==> windows::app_in(
            basic(wins, cfg),
            pid,
        ),
{
    let b = basic(wins, cfg);
    let rest = plain(wins, cfg);
    let all = windows::sanitized(wins, cfg);
    if windows::app_in(b, pid) {
        if windows::app_in(rest, pid) {
            let k = choose|k: int| 0 <= k < rest.len() && (#[trigger] rest[k]).pid == pid;
            assert(all[k] == rest[k]);
        } else {
            let m = lemma_has_main(b, pid);
            let k = windows::lemma_selects(
                b,
                |i: int| windows::is_main(b, i) && !windows::app_in(rest, b[i].pid),
                b.len() as int,
                m,
            );
            assert(all[rest.len() + k] == windows::rescued(b, rest)[k]);
        }
    }
    if windows::app_in(all, pid) {
        let k = choose|k: int| 0 <= k < all.len() && (#[trigger] all[k]).pid == pid;
        if k < rest.len() {
            let i = lemma_plain_from_basic(wins, cfg, k);
            assert(b[i].pid == pid);
        } else {
            let i = lemma_rescued_from_basic(b, rest, k - rest.len());
            assert(b[i].pid == pid);
        }
    }
}

/// An app that only the guarantee keeps is there with its main window alone.
pub proof fn law_rescued_app_has_one_window(wins: Seq<Win>, cfg: &Config, j: int, k: int)
    requires
        0 <= j < windows::sanitized(wins, cfg).len(),
        0 <= k < windows::sanitized(wins, cfg).len(),
        windows::sanitized(wins, cfg)[j].pid == windows::sanitized(wins, cfg)[k].pid,
        !windows::app_in(plain(wins, cfg), windows::sanitized(wins, cfg)[k].pid),
    ensures
        j == k,
{
    let b = basic(wins, cfg);
    let rest = plain(wins, cfg);
    let all = windows::sanitized(wins, cfg);
    if j < rest.len() {
        assert(rest[j].pid == all[k].pid);
    }
    if k < rest.len() {
        assert(rest[k].pid == all[k].pid);
    }
    let keep = |i: int| windows::is_main(b, i) && !windows::app_in(rest, b[i].pid);
    if j != k {
        let lo = if j < k {
            j
        } else {
            k
        };
        let hi = if j < k {
            k
        } else {
            j
        };
        let p = lemma_selected_in_order(b, keep, b.len() as int, lo - rest.len(), hi - rest.len());
        assert(b[p.0].pid == b[p.1].pid);
        assert(windows::is_main(b, p.0) && windows::is_main(b, p.1));
    }
}

/// Two selected windows come from two positions in the same order.
proof fn lemma_selected_in_order(
    wins: Seq<Win>,
    keep: spec_fn(int) -> bool,
    n: int,
    j: int,
    k: int,
) -> (p: (int, int))
    requires
        0 <= n <= wins.len(),
        0 <= j < k < windows::select_upto(wins, keep, n).len(),
    ensures
        0 <= p.0 < p.1 < n,
        keep(p.0),
        keep(p.1),
        windows::select_upto(wins, keep, n)[j] == wins[p.0],
        windows::select_upto(wins, keep, n)[k] == wins[p.1],
    decreases n,
{
    if keep(n - 1) && k == windows::select_upto(wins, keep, n).len() - 1 {
        let i = windows::lemma_selected_from(wins, keep, n - 1, j);
        (i, n - 1)
    } else {
        lemma_selected_in_order(wins, keep, n - 1, j, k)
    }
}

/// A titled window is never taken for a duplicate: two titled windows with the
/// same bounds are both kept.
pub proof fn law_titled_windows_are_no_duplicates(b: Seq<Win>, i: int)
    requires
        0 <= i < b.len(),
        windows::titled(b[i]),
    ensures
        windows::deduped(b).contains(b[i]),
{
    let k = windows::lemma_selects(
        b,
        |i: int| windows::survives_dedup(b, i),
        b.len() as int,
        i,
    );
    assert(windows::deduped(b)[k] == b[i]);
}

/// Of two windows in one place that both stay, both are titled.
pub proof fn law_untitled_duplicates_are_dropped(b: Seq<Win>, j: int, k: int)
    requires
        0 <= j < k < windows::deduped(b).len(),
        windows::same_place(windows::deduped(b)[j], windows::deduped(b)[k]),
    ensures
        windows::titled(windows::deduped(b)[j]),
        windows::titled(windows::deduped(b)[k]),
{
    let p = lemma_selected_in_order(
        b,
        |i: int| windows::survives_dedup(b, i),
        b.len() as int,
        j,
        k,
    );
    assert(windows::same_place(b[p.0], b[p.1]));
    assert(windows::same_place(b[p.1], b[p.0]));
    assert(windows::survives_dedup(b, p.0));
    assert(windows::survives_dedup(b, p.1));
}

/// A predicate that accepts every position selects the whole list.
proof fn lemma_select_all(wins: Seq<Win>, keep: spec_fn(int) -> bool, n: int)
    requires
        0 <= n <= wins.len(),
        forall|i: int| 0 <= i < n ==> #[trigger] keep(i),
    ensures
        windows::select_upto(wins, keep, n) == wins.take(n),
    decreases n,
{
    if n > 0 {
        lemma_select_all(wins, keep, n - 1);
        assert(keep(n - 1));
        assert(wins.take(n - 1).push(wins[n - 1]) =~= wins.take(n));
    } else {
        assert(wins.take(n) =~= Seq::empty());
    }
}

/// Two sanitised windows of one app come from two places of the list without
/// duplicates, neither of which is an overlay layer.
proof fn lemma_siblings_are_plain(wins: Seq<Win>, cfg: &Config, i: int, j: int) -> (p: (int, int))
    requires
        0 <= i < windows::sanitized(wins, cfg).len(),
        0 <= j < windows::sanitized(wins, cfg).len(),
        i != j,
        windows::sanitized(wins, cfg)[i].pid == windows::sanitized(wins, cfg)[j].pid,
    ensures
        ({
            let d = windows::deduped(basic(wins, cfg));
            &&& 0 <= p.0 < d.len() && 0 <= p.1 < d.len() && p.0 != p.1
            &&& d[p.0] == windows::sanitized(wins, cfg)[i]
            &&& d[p.1] == windows::sanitized(wins, cfg)[j]
            &&& !windows::suspicious(d, p.0)
            &&& !windows::suspicious(d, p.1)
        }),
{
    let b = basic(wins, cfg);
    let d = windows::deduped(b);
    let rest = plain(wins, cfg);
    let all = windows::sanitized(wins, cfg);
    let keep = |i: int| !windows::suspicious(d, i);
    if !windows::app_in(rest, all[i].pid) {
        law_rescued_app_has_one_window(wins, cfg, j, i);
    }
    assert forall|k: int| rest.len() <= k < all.len() implies !windows::app_in(
        rest,
        (#[trigger] all[k]).pid,
    ) by {
        lemma_rescued_from_basic(b, rest, k - rest.len());
    }
    assert(i < rest.len() && j < rest.len());
    if i < j {
        lemma_selected_in_order(d, keep, d.len() as int, i, j)
    } else {
        let p = lemma_selected_in_order(d, keep, d.len() as int, j, i);
        (p.1, p.0)
    }
}

/// No window of a sanitised list is a duplicate in it.
proof fn lemma_no_duplicates_left(wins: Seq<Win>, cfg: &Config)
    ensures
        windows::deduped(windows::sanitized(wins, cfg)) == windows::sanitized(wins, cfg),
{
    let b = basic(wins, cfg);
    let s = windows::sanitized(wins, cfg);
    let keep = |i: int| windows::survives_dedup(s, i);
    assert forall|i: int| 0 <= i < s.len() implies #[trigger] keep(i) by {
        if !windows::titled(s[i]) {
            assert forall|j: int|
                0 <= j < s.len() && windows::same_place(#[trigger] s[j], s[i]) implies !windows::titled(
                s[j],
            ) && i <= j by {
                if i != j {
                    let p = lemma_siblings_are_plain(wins, cfg, i, j);
                    let d = windows::deduped(b);
                    assert(windows::same_place(d[p.0], d[p.1]) && windows::same_place(
                        d[p.1],
                        d[p.0],
                    ));
                    if p.0 < p.1 {
                        law_untitled_duplicates_are_dropped(b, p.0, p.1);
                    } else {
                        law_untitled_duplicates_are_dropped(b, p.1, p.0);
                    }
                }
            }
        }
    }
    lemma_select_all(s, keep, s.len() as int);
    assert(s.take(s.len() as int) =~= s);
}

/// No plain window of a sanitised list looks like an overlay layer in it.
proof fn lemma_plain_stays_plain(wins: Seq<Win>, cfg: &Config, i: int)
    requires
        0 <= i < plain(wins, cfg).len(),
    ensures
        !windows::suspicious(windows::sanitized(wins, cfg), i),
{
    let b = basic(wins, cfg);
    let d = windows::deduped(b);
    let s = windows::sanitized(wins, cfg);
    let keep = |i: int| !windows::suspicious(d, i);
    let p = windows::lemma_selected_from(d, keep, d.len() as int, i);
    assert(s[i] == d[p]);
    if windows::titles_available(s) {
        let k = choose|k: int| 0 <= k < s.len() && windows::titled(#[trigger] s[k]);
        let m = if k < plain(wins, cfg).len() {
            lemma_plain_from_basic(wins, cfg, k)
        } else {
            lemma_rescued_from_basic(b, plain(wins, cfg), k - plain(wins, cfg).len())
        };
        assert(b[m] == s[k]);
        law_titled_windows_are_no_duplicates(b, m);
        assert(windows::titles_available(d));
    }
    assert forall|j: int|
        0 <= j < s.len() && j != i && (#[trigger] s[j]).pid == s[i].pid implies !(
    windows::contained(s[i], s[j]) && windows::much_smaller(s[i], s[j])) by {
        let q = lemma_siblings_are_plain(wins, cfg, i, j);
        assert(d[q.1].pid == d[q.0].pid);
    }
}

/// Sanitising a list that was sanitised before keeps the same windows.
#[verifier::spinoff_prover]
pub proof fn law_sanitizing_again_keeps_the_windows(wins: Seq<Win>, cfg: &Config, w: Win)
    ensures
        windows::sanitized(windows::sanitized(wins, cfg), cfg).contains(w)
            <==> windows::sanitized(wins, cfg).contains(w),
{
    let s = windows::sanitized(wins, cfg);
    let again = windows::sanitized(s, cfg);
    let n = plain(wins, cfg).len();
    if again.contains(w) {
        let k = choose|k: int| 0 <= k < again.len() && again[k] == w;
        law_sanitize_only_filters(s, cfg, k);
    }
    if s.contains(w) {
        let i = choose|i: int| 0 <= i < s.len() && s[i] == w;
        let ok = |w: Win| windows::passes_basic(w, cfg);
        assert forall|k: int| 0 <= k < s.len() implies #[trigger] ok(s[k]) by {
            law_sanitize_only_filters(wins, cfg, k);
        }
        lemma_filter_keeps_all(s, ok);
        lemma_no_duplicates_left(wins, cfg);
        let rest = windows::without_overlays(s);
        let bare = |i: int| !windows::suspicious(s, i);
        if i < n {
            lemma_plain_stays_plain(wins, cfg, i);
        }
        if !windows::suspicious(s, i) {
            let k = windows::lemma_selects(s, bare, s.len() as int, i);
            assert(again[k] == w);
        } else {
            lemma_rescued_from_basic(basic(wins, cfg), plain(wins, cfg), i - n);
            assert forall|j: int| 0 <= j < s.len() && (#[trigger] s[j]).pid == s[i].pid implies j
                == i by {
                law_rescued_app_has_one_window(wins, cfg, j, i);
            }
            if windows::app_in(rest, s[i].pid) {
                let k = choose|k: int| 0 <= k < rest.len() && (#[trigger] rest[k]).pid == s[i].pid;
                let j = windows::lemma_selected_from(s, bare, s.len() as int, k);
                assert(s[j].pid == s[i].pid);
            }
            let k = windows::lemma_selects(
                s,
                |i: int| windows::is_main(s, i) && !windows::app_in(rest, s[i].pid),
                s.len() as int,
                i,
            );
            assert(again[rest.len() + k] == w);
        }
    }
}

/// A filter that every window passes keeps the list.
proof fn lemma_filter_keeps_all(wins: Seq<Win>, ok: spec_fn(Win) -> bool)
    requires
        forall|k: int| 0 <= k < wins.len() ==> #[trigger] ok(wins[k]),
    ensures
        wins.filter(ok) == wins,
    decreases wins.len(),
{
    reveal(Seq::filter);
    if wins.len() > 0 {
        let head = wins.drop_last();
        assert forall|k: int| 0 <= k < head.len() implies #[trigger] ok(head[k]) by {
            assert(ok(wins[k]));
        }
        lemma_filter_keeps_all(head, ok);
        assert(ok(wins[wins.len() - 1]));
        assert(head.push(wins.last()) =~= wins);
    } else {
        assert(wins.filter(ok) =~= wins);
    }
}

proof fn lemma_filter_map_commute(
    wins: Seq<Win>,
    all: spec_fn(Win) -> bool,
    some: spec_fn(Win) -> bool,
    to_item: spec_fn(Win) -> Item,
    mine: spec_fn(Item) -> bool,
)
    requires
        forall|w: Win| #[trigger] some(w) <==> all(w) && mine(to_item(w)),
    ensures
        wins.filter(some).map_values(to_item) == wins.filter(all).map_values(to_item).filter(mine),
    decreases wins.len(),
{
    reveal(Seq::filter);
    if wins.len() > 0 {
        let w = wins.last();
        lemma_filter_map_commute(wins.drop_last(), all, some, to_item, mine);
        let head = wins.drop_last().filter(all);
        if all(w) {
            assert(head.push(w).map_values(to_item) =~= head.map_values(to_item).push(to_item(w)));
            assert(head.map_values(to_item).push(to_item(w)).drop_last() =~= head.map_values(
                to_item,
            ));
        }
        if some(w) {
            let short = wins.drop_last().filter(some);
            assert(short.push(w).map_values(to_item) =~= short.map_values(to_item).push(
                to_item(w),
            ));
        }
    } else {
        assert(wins.filter(some).map_values(to_item) =~= Seq::<Item>::empty());
        assert(wins.filter(all).map_values(to_item) =~= Seq::<Item>::empty());
    }
}

/// The app switcher lists, in the same order, the entries of the desktop
/// switcher that belong to the frontmost app.
pub proof fn law_app_list_is_part_of_space_list(
    wins: Seq<Win>,
    display: Option<(i32, i32, i32, i32)>,
    front: i32,
    our_pid: u32,
)
    requires
        front > 0,
        front != our_pid as i32,
    ensures
        windows::scoped(wins, Mode::App, display, Some(front), our_pid) == windows::scoped(
            wins,
            Mode::Space,
            display,
            Some(front),
            our_pid,
        ).filter(|it: Item| it.pid == front),
{
    lemma_filter_map_commute(
        wins,
        |w: Win| windows::listed(w, Mode::Space, display, Some(front), our_pid),
        |w: Win| windows::listed(w, Mode::App, display, Some(front), our_pid),
        |w: Win| windows::item_of(w, windows::app_count(wins, w.pid)),
        |it: Item| it.pid == front,
    );
}

/// Displays are isolated: every entry's window has its centre on the display,
/// and its app's window count covers all displays.
pub proof fn law_entries_are_on_the_display(
    wins: Seq<Win>,
    mode: Mode,
    display: (i32, i32, i32, i32),
    front_pid: Option<i32>,
    our_pid: u32,
    k: int,
) -> (i: int)
    requires
        0 <= k < windows::scoped(wins, mode, Some(display), front_pid, our_pid).len(),
    ensures
        0 <= i < wins.len(),
        windows::centre_inside(wins[i], display),
        windows::scoped(wins, mode, Some(display), front_pid, our_pid)[k] == windows::item_of(
            wins[i],
            windows::app_count(wins, wins[i].pid),
        ),
{
    let pick = |w: Win| windows::listed(w, mode, Some(display), front_pid, our_pid);
    let f = wins.filter(pick);
    let w = f[k];
    assert(f.contains(w));
    broadcast use vstd::seq_lib::group_filter_ensures;

    assert(pick(f[k]));
    wins.lemma_filter_contains_rev(pick, w);
    choose|i: int| 0 <= i < wins.len() && wins[i] == w
}

/// Only active windows are listed: every entry stands for a window of another
/// process that is on screen, passes the basic filter and lies on the display.
pub proof fn law_only_active_windows_are_listed(
    wins: Seq<Win>,
    cfg: &Config,
    mode: Mode,
    our_pid: u32,
    display: Option<(i32, i32, i32, i32)>,
    front_pid: Option<i32>,
    k: int,
) -> (i: int)
    requires
        0 <= k < windows::collected(wins, cfg, mode, our_pid, display, front_pid).len(),
    ensures
        0 <= i < wins.len(),
        wins[i].onscreen,
        windows::passes_basic(wins[i], cfg),
        wins[i].pid != our_pid as i32,
        windows::on_display(wins[i], display),
        windows::collected(wins, cfg, mode, our_pid, display, front_pid)[k].id == wins[i].id,
        windows::collected(wins, cfg, mode, our_pid, display, front_pid)[k].pid == wins[i].pid,
        mode is App ==> front_pid == Some(wins[i].pid),
{
    broadcast use vstd::seq_lib::group_filter_ensures;

    let foreign = |w: Win| w.pid != our_pid as i32;
    let others = wins.filter(foreign);
    let clean = windows::sanitized(others, cfg);
    let pick = |w: Win| windows::listed(w, mode, display, front_pid, our_pid);
    let f = clean.filter(pick);
    let w = f[k];
    assert(f.contains(w));
    assert(pick(f[k]));
    clean.lemma_filter_contains_rev(pick, w);
    let m = choose|m: int| 0 <= m < clean.len() && clean[m] == w;
    law_sanitize_only_filters(others, cfg, m);
    wins.lemma_filter_contains_rev(foreign, w);
    let j = choose|j: int| 0 <= j < others.len() && others[j] == w;
    assert(foreign(others[j]));
    choose|i: int| 0 <= i < wins.len() && wins[i] == w
}

// ---------- positions ----------

/// Position in a filtered list of what stood at position `i`.
pub proof fn lemma_filter_pos<A>(s: Seq<A>, p: spec_fn(A) -> bool, i: int)
    requires
        0 <= i < s.len(),
        p(s[i]),
    ensures
        s.take(i).filter(p).len() < s.filter(p).len(),
        s.filter(p)[s.take(i).filter(p).len() as int] == s[i],
    decreases s.len(),
{
    reveal(Seq::filter);
    let t = s.drop_last();
    if i == s.len() - 1 {
        assert(s.take(i) =~= t);
    } else {
        lemma_filter_pos(t, p, i);
        assert(t.take(i) =~= s.take(i));
    }
}

/// Filtering keeps the order.
pub proof fn lemma_filter_pos_ascends<A>(s: Seq<A>, p: spec_fn(A) -> bool, i: int, j: int)
    requires
        0 <= i < j <= s.len(),
        p(s[i]),
    ensures
        s.take(i).filter(p).len() < s.take(j).filter(p).len(),
{
    let t = s.take(j);
    lemma_filter_pos(t, p, i);
    assert(t.take(i) =~= s.take(i));
}

/// Where an entry of a filtered list came from.
proof fn lemma_filter_src<A>(s: Seq<A>, p: spec_fn(A) -> bool, m: int) -> (i: int)
    requires
        0 <= m < s.filter(p).len(),
    ensures
        0 <= i < s.len(),
        p(s[i]),
        s.take(i).filter(p).len() == m,
        s.filter(p)[m] == s[i],
    decreases s.len(),
{
    reveal(Seq::filter);
    let t = s.drop_last();
    if p(s.last()) && m == t.filter(p).len() {
        assert(s.take(s.len() - 1) =~= t);
        s.len() - 1
    } else {
        let i = lemma_filter_src(t, p, m);
        assert(t.take(i) =~= s.take(i));
        i
    }
}

/// Position in a selection of what stood at position `i`.
proof fn lemma_select_pos(wins: Seq<Win>, keep: spec_fn(int) -> bool, n: int, i: int)
    requires
        0 <= i < n <= wins.len(),
        keep(i),
    ensures
        windows::select_upto(wins, keep, i).len() < windows::select_upto(wins, keep, n).len(),
        windows::select_upto(wins, keep, n)[windows::select_upto(wins, keep, i).len() as int]
            == wins[i],
    decreases n,
{
    if i < n - 1 {
        lemma_select_pos(wins, keep, n - 1, i);
    }
}

/// Where an entry of a selection came from.
proof fn lemma_select_src(wins: Seq<Win>, keep: spec_fn(int) -> bool, n: int, m: int) -> (i: int)
    requires
        0 <= n <= wins.len(),
        0 <= m < windows::select_upto(wins, keep, n).len(),
    ensures
        0 <= i < n,
        keep(i),
        windows::select_upto(wins, keep, i).len() == m,
        windows::select_upto(wins, keep, n)[m] == wins[i],
    decreases n,
{
    if keep(n - 1) && m == windows::select_upto(wins, keep, n).len() - 1 {
        n - 1
    } else {
        lemma_select_src(wins, keep, n - 1, m)
    }
}

/// Position of the window at `i` in the list that passed the basic filter.
spec fn basic_pos(wins: Seq<Win>, cfg: &Config, i: int) -> int {
    basic(wins.take(i), cfg).len() as int
}

/// Position of the window at `k` in the list without duplicates.
spec fn unique_pos(b: Seq<Win>, k: int) -> int {
    windows::select_upto(b, |i: int| windows::survives_dedup(b, i), k).len() as int
}

/// The window stands at another position than `i`, and passes the basic filter.
spec fn is_elsewhere(wins: Seq<Win>, cfg: &Config, i: int, w: Win) -> bool {
    exists|j: int|
        0 <= j < wins.len() && j != i && #[trigger] wins[j] == w && windows::passes_basic(w, cfg)
}

/// A window that survives the removal of duplicates: its position, and that
/// every other position belongs to another window of the list.
proof fn lemma_traced(wins: Seq<Win>, cfg: &Config, i: int) -> (p: int)
    requires
        0 <= i < wins.len(),
        windows::passes_basic(wins[i], cfg),
        windows::survives_dedup(basic(wins, cfg), basic_pos(wins, cfg, i)),
    ensures
        ({
            let d = windows::deduped(basic(wins, cfg));
            &&& 0 <= p < d.len()
            &&& d[p] == wins[i]
            &&& p == unique_pos(basic(wins, cfg), basic_pos(wins, cfg, i))
            &&& forall|m: int|
                0 <= m < d.len() && m != p ==> is_elsewhere(wins, cfg, i, #[trigger] d[m])
        }),
{
    let ok = |w: Win| windows::passes_basic(w, cfg);
    let b = basic(wins, cfg);
    let d = windows::deduped(b);
    let keep = |i: int| windows::survives_dedup(b, i);
    lemma_filter_pos(wins, ok, i);
    let k = basic_pos(wins, cfg, i);
    lemma_select_pos(b, keep, b.len() as int, k);
    let p = unique_pos(b, k);
    assert forall|m: int| 0 <= m < d.len() && m != p implies is_elsewhere(
        wins,
        cfg,
        i,
        #[trigger] d[m],
    ) by {
        let q = lemma_select_src(b, keep, b.len() as int, m);
        let j = lemma_filter_src(wins, ok, q);
        assert(q != k);
        assert(j != i);
        assert(wins[j] == d[m]);
    }
    p
}

/// A plain window is listed, and its app has a plain window.
proof fn lemma_plain_is_listed(wins: Seq<Win>, cfg: &Config, p: int) -> (k: int)
    requires
        0 <= p < windows::deduped(basic(wins, cfg)).len(),
        !windows::suspicious(windows::deduped(basic(wins, cfg)), p),
    ensures
        0 <= k < plain(wins, cfg).len(),
        k == windows::select_upto(
            windows::deduped(basic(wins, cfg)),
            |i: int| !windows::suspicious(windows::deduped(basic(wins, cfg)), i),
            p,
        ).len(),
        plain(wins, cfg)[k] == windows::deduped(basic(wins, cfg))[p],
        windows::sanitized(wins, cfg)[k] == windows::deduped(basic(wins, cfg))[p],
        windows::app_in(plain(wins, cfg), windows::deduped(basic(wins, cfg))[p].pid),
{
    let d = windows::deduped(basic(wins, cfg));
    let keep = |i: int| !windows::suspicious(d, i);
    lemma_select_pos(d, keep, d.len() as int, p);
    let k = windows::select_upto(d, keep, p).len() as int;
    assert(plain(wins, cfg)[k].pid == d[p].pid);
    k
}

/// What is listed was in the list, and if it is a plain window it stands in the
/// list without duplicates, where it looks like no overlay layer.
proof fn lemma_listed_from(wins: Seq<Win>, cfg: &Config, k: int) -> (s: (int, int))
    requires
        0 <= k < windows::sanitized(wins, cfg).len(),
    ensures
        0 <= s.0 < wins.len(),
        wins[s.0] == windows::sanitized(wins, cfg)[k],
        windows::passes_basic(wins[s.0], cfg),
        ({
            let b = basic(wins, cfg);
            let d = windows::deduped(b);
            let q = basic_pos(wins, cfg, s.0);
            &&& 0 <= q < b.len() && b[q] == wins[s.0]
            &&& k < plain(wins, cfg).len() ==> {
                &&& windows::survives_dedup(b, q)
                &&& 0 <= s.1 < d.len() && s.1 == unique_pos(b, q) && d[s.1] == wins[s.0]
                &&& !windows::suspicious(d, s.1)
            }
            &&& k >= plain(wins, cfg).len() ==> {
                &&& windows::is_main(b, q)
                &&& !windows::app_in(plain(wins, cfg), wins[s.0].pid)
            }
        }),
{
    let ok = |w: Win| windows::passes_basic(w, cfg);
    let b = basic(wins, cfg);
    let d = windows::deduped(b);
    let rest = plain(wins, cfg);
    if k < rest.len() {
        let m = lemma_select_src(d, |i: int| !windows::suspicious(d, i), d.len() as int, k);
        let q = lemma_select_src(b, |i: int| windows::survives_dedup(b, i), b.len() as int, m);
        let i = lemma_filter_src(wins, ok, q);
        (i, m)
    } else {
        let q = lemma_select_src(
            b,
            |i: int| windows::is_main(b, i) && !windows::app_in(rest, b[i].pid),
            b.len() as int,
            k - rest.len(),
        );
        let i = lemma_filter_src(wins, ok, q);
        (i, 0)
    }
}

// ---------- the real windows, in numbers ----------

/// The window at `i` has a title, is (almost) opaque, and is no small window
/// inside another one of its app: it sticks out of every other window of the
/// app by more than 2 points on some side, or has at least 30 % of its area.
pub open spec fn stands_for_itself(wins: Seq<Win>, i: int) -> bool {
    &&& wins[i].title@.len() > 0
    &&& wins[i].alpha >= 980_000
    &&& forall|j: int|
        0 <= j < wins.len() && j != i && (#[trigger] wins[j]).pid == wins[i].pid ==> {
            ||| wins[i].x < wins[j].x - 2_000
            ||| wins[i].y < wins[j].y - 2_000
            ||| wins[i].x + wins[i].w > wins[j].x + wins[j].w + 2_000
            ||| wins[i].y + wins[i].h > wins[j].y + wins[j].h + 2_000
            ||| (wins[i].w * wins[i].h) * 10 >= (wins[j].w * wins[j].h) * 3
        }
}

proof fn lemma_real_window(wins: Seq<Win>, cfg: &Config, i: int) -> (p: int)
    requires
        0 <= i < wins.len(),
        windows::passes_basic(wins[i], cfg),
        stands_for_itself(wins, i),
    ensures
        ({
            let d = windows::deduped(basic(wins, cfg));
            &&& 0 <= p < d.len()
            &&& d[p] == wins[i]
            &&& p == unique_pos(basic(wins, cfg), basic_pos(wins, cfg, i))
            &&& windows::survives_dedup(basic(wins, cfg), basic_pos(wins, cfg, i))
            &&& !windows::suspicious(d, p)
        }),
{
    let ok = |w: Win| windows::passes_basic(w, cfg);
    let b = basic(wins, cfg);
    let d = windows::deduped(b);
    lemma_filter_pos(wins, ok, i);
    let p = lemma_traced(wins, cfg, i);
    if windows::suspicious(d, p) {
        let m = choose|m: int|
            {
                &&& 0 <= m < d.len()
                &&& m != p
                &&& (#[trigger] d[m]).pid == d[p].pid
                &&& windows::contained(d[p], d[m])
                &&& windows::much_smaller(d[p], d[m])
            };
        let j = choose|j: int|
            0 <= j < wins.len() && j != i && #[trigger] wins[j] == d[m] && windows::passes_basic(
                d[m],
                cfg,
            );
        assert(wins[j].pid == wins[i].pid);
    }
    p
}

/// Every real window is kept: a window that passes the basic filter, has a
/// title, is opaque, and sticks out of each larger window of its app.
pub proof fn law_real_windows_are_kept(wins: Seq<Win>, cfg: &Config, i: int)
    requires
        0 <= i < wins.len(),
        windows::passes_basic(wins[i], cfg),
        stands_for_itself(wins, i),
    ensures
        windows::sanitized(wins, cfg).contains(wins[i]),
{
    let p = lemma_real_window(wins, cfg, i);
    let k = lemma_plain_is_listed(wins, cfg, p);
    assert(windows::sanitized(wins, cfg)[k] == wins[i]);
}

/// Two real windows keep their order, front to back.
pub proof fn law_real_windows_keep_their_order(wins: Seq<Win>, cfg: &Config, i: int, j: int) -> (ab: (
    int,
    int,
))
    requires
        0 <= i < j < wins.len(),
        windows::passes_basic(wins[i], cfg),
        windows::passes_basic(wins[j], cfg),
        stands_for_itself(wins, i),
        stands_for_itself(wins, j),
    ensures
        0 <= ab.0 < ab.1 < windows::sanitized(wins, cfg).len(),
        windows::sanitized(wins, cfg)[ab.0] == wins[i],
        windows::sanitized(wins, cfg)[ab.1] == wins[j],
{
    let ok = |w: Win| windows::passes_basic(w, cfg);
    let b = basic(wins, cfg);
    let d = windows::deduped(b);
    let p = lemma_real_window(wins, cfg, i);
    let q = lemma_real_window(wins, cfg, j);
    lemma_filter_pos_ascends(wins, ok, i, j);
    lemma_filter_pos(wins, ok, j);
    lemma_select_pos(
        b,
        |i: int| windows::survives_dedup(b, i),
        basic_pos(wins, cfg, j),
        basic_pos(wins, cfg, i),
    );
    let a = lemma_plain_is_listed(wins, cfg, p);
    let z = lemma_plain_is_listed(wins, cfg, q);
    lemma_select_pos(d, |i: int| !windows::suspicious(d, i), q, p);
    (a, z)
}

/// Junk is dropped: next to a real window of its app, a window that has no
/// title, or is translucent, or is a small window inside the real one (not
/// sticking out by more than 2 points, with less than 30 % of its area).
pub proof fn law_overlay_layers_are_dropped(wins: Seq<Win>, cfg: &Config, i: int, whole: int)
    requires
        0 <= i < wins.len(),
        0 <= whole < wins.len(),
        i != whole,
        windows::passes_basic(wins[whole], cfg),
        stands_for_itself(wins, whole),
        wins[i].pid == wins[whole].pid,
        ({
            ||| wins[i].title@.len() == 0
            ||| wins[i].alpha < 980_000
            ||| {
                &&& wins[i].x >= wins[whole].x - 2_000
                &&& wins[i].y >= wins[whole].y - 2_000
                &&& wins[i].x + wins[i].w <= wins[whole].x + wins[whole].w + 2_000
                &&& wins[i].y + wins[i].h <= wins[whole].y + wins[whole].h + 2_000
                &&& (wins[i].w * wins[i].h) * 10 < (wins[whole].w * wins[whole].h) * 3
            }
        }),
    ensures
        !windows::sanitized(wins, cfg).contains(wins[i]),
{
    let b = basic(wins, cfg);
    let d = windows::deduped(b);
    let p = lemma_real_window(wins, cfg, whole);
    lemma_plain_is_listed(wins, cfg, p);
    assert(windows::titled(d[p]));
    assert(windows::titles_available(d));
    if windows::sanitized(wins, cfg).contains(wins[i]) {
        let k = choose|k: int|
            0 <= k < windows::sanitized(wins, cfg).len() && windows::sanitized(wins, cfg)[k]
                == wins[i];
        let s = lemma_listed_from(wins, cfg, k);
        assert(d[p].pid == d[s.1].pid);
        assert(s.1 != p || wins[i] == wins[whole]);
    }
}

/// An app that has a window with a title is never listed with an untitled one.
pub proof fn law_titled_apps_show_no_untitled_window(wins: Seq<Win>, cfg: &Config, t: int, k: int)
    requires
        0 <= t < wins.len(),
        windows::passes_basic(wins[t], cfg),
        wins[t].title@.len() > 0,
        0 <= k < windows::sanitized(wins, cfg).len(),
        windows::sanitized(wins, cfg)[k].pid == wins[t].pid,
    ensures
        windows::sanitized(wins, cfg)[k].title@.len() > 0,
{
    let ok = |w: Win| windows::passes_basic(w, cfg);
    let b = basic(wins, cfg);
    let d = windows::deduped(b);
    lemma_filter_pos(wins, ok, t);
    let q = basic_pos(wins, cfg, t);
    assert(windows::titled(b[q]));
    let p = lemma_traced(wins, cfg, t);
    assert(windows::titled(d[p]));
    let s = lemma_listed_from(wins, cfg, k);
    assert(b[q].pid == wins[s.0].pid);
}

/// An app that would lose all of its windows keeps one: the frontmost that has
/// a title. Here all of its windows are translucent.
pub proof fn law_translucent_app_keeps_its_front_window(wins: Seq<Win>, cfg: &Config, i: int)
    requires
        0 <= i < wins.len(),
        windows::passes_basic(wins[i], cfg),
        wins[i].title@.len() > 0,
        forall|j: int|
            0 <= j < wins.len() && (#[trigger] wins[j]).pid == wins[i].pid ==> wins[j].alpha
                < 980_000,
        forall|j: int|
            0 <= j < i && (#[trigger] wins[j]).pid == wins[i].pid ==> wins[j].title@.len() == 0
                || !windows::passes_basic(wins[j], cfg),
    ensures
        windows::sanitized(wins, cfg).contains(wins[i]),
        forall|k: int|
            0 <= k < windows::sanitized(wins, cfg).len() && (#[trigger] windows::sanitized(
                wins,
                cfg,
            )[k]).pid == wins[i].pid ==> windows::sanitized(wins, cfg)[k] == wins[i],
{
    lemma_rescued_main(wins, cfg, i);
}

/// An app that would lose all of its windows keeps one: the frontmost, where
/// none has a title. Here titles can be read, as another app's window shows.
pub proof fn law_untitled_app_keeps_its_front_window(wins: Seq<Win>, cfg: &Config, i: int, t: int)
    requires
        0 <= i < wins.len(),
        0 <= t < wins.len(),
        windows::passes_basic(wins[i], cfg),
        windows::passes_basic(wins[t], cfg),
        wins[t].title@.len() > 0,
        forall|j: int|
            0 <= j < wins.len() && (#[trigger] wins[j]).pid == wins[i].pid ==> wins[j].title@.len()
                == 0,
        forall|j: int|
            0 <= j < i && (#[trigger] wins[j]).pid == wins[i].pid ==> !windows::passes_basic(
                wins[j],
                cfg,
            ),
    ensures
        windows::sanitized(wins, cfg).contains(wins[i]),
        forall|k: int|
            0 <= k < windows::sanitized(wins, cfg).len() && (#[trigger] windows::sanitized(
                wins,
                cfg,
            )[k]).pid == wins[i].pid ==> windows::sanitized(wins, cfg)[k] == wins[i],
{
    let ok = |w: Win| windows::passes_basic(w, cfg);
    let b = basic(wins, cfg);
    let d = windows::deduped(b);
    lemma_filter_pos(wins, ok, t);
    assert(windows::titled(b[basic_pos(wins, cfg, t)]));
    let p = lemma_traced(wins, cfg, t);
    assert(windows::titled(d[p]));
    assert(windows::titles_available(d));
    lemma_rescued_main(wins, cfg, i);
}

/// The main window of an app all of whose windows look like overlay layers is
/// listed, alone.
proof fn lemma_rescued_main(wins: Seq<Win>, cfg: &Config, i: int)
    requires
        0 <= i < wins.len(),
        windows::passes_basic(wins[i], cfg),
        forall|j: int|
            0 <= j < wins.len() && (#[trigger] wins[j]).pid == wins[i].pid ==> wins[j].alpha
                < 980_000 || (wins[j].title@.len() == 0 && windows::titles_available(
                windows::deduped(basic(wins, cfg)),
            )),
        wins[i].title@.len() > 0 ==> forall|j: int|
            0 <= j < i && (#[trigger] wins[j]).pid == wins[i].pid ==> wins[j].title@.len() == 0
                || !windows::passes_basic(wins[j], cfg),
        wins[i].title@.len() == 0 ==> forall|j: int|
            0 <= j < wins.len() && (#[trigger] wins[j]).pid == wins[i].pid
                && windows::passes_basic(wins[j], cfg) ==> i <= j && wins[j].title@.len() == 0,
    ensures
        windows::sanitized(wins, cfg).contains(wins[i]),
        forall|k: int|
            0 <= k < windows::sanitized(wins, cfg).len() && (#[trigger] windows::sanitized(
                wins,
                cfg,
            )[k]).pid == wins[i].pid ==> windows::sanitized(wins, cfg)[k] == wins[i],
{
    let ok = |w: Win| windows::passes_basic(w, cfg);
    let b = basic(wins, cfg);
    let d = windows::deduped(b);
    let rest = plain(wins, cfg);
    let all = windows::sanitized(wins, cfg);
    lemma_filter_pos(wins, ok, i);
    let q = basic_pos(wins, cfg, i);
    assert forall|m: int|
        0 <= m < b.len() && (#[trigger] b[m]).pid == b[q].pid implies if windows::titled(b[q]) {
        windows::titled(b[m]) ==> q <= m
    } else {
        !windows::titled(b[m]) && q <= m
    } by {
        let j = lemma_filter_src(wins, ok, m);
        assert(wins[j].pid == wins[i].pid);
        if j > i {
            lemma_filter_pos_ascends(wins, ok, i, j);
        }
    }
    assert(windows::is_main(b, q));
    if windows::app_in(rest, wins[i].pid) {
        let k = choose|k: int| 0 <= k < rest.len() && (#[trigger] rest[k]).pid == wins[i].pid;
        assert(all[k] == rest[k]);
        let s = lemma_listed_from(wins, cfg, k);
        assert(wins[s.0].pid == wins[i].pid);
    }
    let keep = |i: int| windows::is_main(b, i) && !windows::app_in(rest, b[i].pid);
    lemma_select_pos(b, keep, b.len() as int, q);
    let r = windows::select_upto(b, keep, q).len() as int;
    assert(all[rest.len() + r] == wins[i]);
    assert forall|k: int| 0 <= k < all.len() && (#[trigger] all[k]).pid == wins[i].pid implies all[k]
        == wins[i] by {
        law_rescued_app_has_one_window(wins, cfg, k, rest.len() + r);
    }
}

/// While no title can be read every opaque window counts, unless another window
/// of its app stands in front of it in the very same place or is much larger
/// and around it.
pub proof fn law_windows_are_kept_without_titles(wins: Seq<Win>, cfg: &Config, i: int)
    requires
        0 <= i < wins.len(),
        windows::passes_basic(wins[i], cfg),
        wins[i].alpha >= 980_000,
        forall|j: int| 0 <= j < wins.len() ==> (#[trigger] wins[j]).title@.len() == 0,
        forall|j: int|
            0 <= j < wins.len() && j != i && (#[trigger] wins[j]).pid == wins[i].pid ==> {
                &&& {
                    ||| i < j
                    ||| wins[i].x - wins[j].x >= 2_000 || wins[j].x - wins[i].x >= 2_000
                    ||| wins[i].y - wins[j].y >= 2_000 || wins[j].y - wins[i].y >= 2_000
                    ||| wins[i].w - wins[j].w >= 2_000 || wins[j].w - wins[i].w >= 2_000
                    ||| wins[i].h - wins[j].h >= 2_000 || wins[j].h - wins[i].h >= 2_000
                }
                &&& {
                    ||| wins[i].x < wins[j].x - 2_000
                    ||| wins[i].y < wins[j].y - 2_000
                    ||| wins[i].x + wins[i].w > wins[j].x + wins[j].w + 2_000
                    ||| wins[i].y + wins[i].h > wins[j].y + wins[j].h + 2_000
                    ||| (wins[i].w * wins[i].h) * 10 >= (wins[j].w * wins[j].h) * 3
                }
            },
    ensures
        windows::sanitized(wins, cfg).contains(wins[i]),
{
    let ok = |w: Win| windows::passes_basic(w, cfg);
    let b = basic(wins, cfg);
    let d = windows::deduped(b);
    lemma_filter_pos(wins, ok, i);
    let q = basic_pos(wins, cfg, i);
    assert forall|m: int| 0 <= m < b.len() && windows::same_place(#[trigger] b[m], b[q]) implies !windows::titled(
        b[m],
    ) && q <= m by {
        let j = lemma_filter_src(wins, ok, m);
        assert(wins[j].pid == wins[i].pid);
        if j > i {
            lemma_filter_pos_ascends(wins, ok, i, j);
        }
    }
    let p = lemma_traced(wins, cfg, i);
    if windows::titles_available(d) {
        let m = choose|m: int| 0 <= m < d.len() && windows::titled(#[trigger] d[m]);
        if m != p {
            let j = choose|j: int|
                0 <= j < wins.len() && j != i && #[trigger] wins[j] == d[m]
                    && windows::passes_basic(d[m], cfg);
            assert(wins[j].title@.len() == 0);
        }
    }
    if windows::suspicious(d, p) {
        let m = choose|m: int|
            {
                &&& 0 <= m < d.len()
                &&& m != p
                &&& (#[trigger] d[m]).pid == d[p].pid
                &&& windows::contained(d[p], d[m])
                &&& windows::much_smaller(d[p], d[m])
            };
        let j = choose|j: int|
            0 <= j < wins.len() && j != i && #[trigger] wins[j] == d[m] && windows::passes_basic(
                d[m],
                cfg,
            );
        assert(wins[j].pid == wins[i].pid);
    }
    let k = lemma_plain_is_listed(wins, cfg, p);
    assert(windows::sanitized(wins, cfg)[k] == wins[i]);
}

/// Of untitled windows of one app with the very same bounds only the frontmost
/// is listed.
pub proof fn law_windows_behind_in_the_same_place_are_dropped(
    wins: Seq<Win>,
    cfg: &Config,
    front: int,
    i: int,
)
    requires
        0 <= front < i < wins.len(),
        windows::passes_basic(wins[front], cfg),
        wins[i].title@.len() == 0,
        wins[i].id != wins[front].id,
        wins[i].pid == wins[front].pid,
        wins[i].x == wins[front].x,
        wins[i].y == wins[front].y,
        wins[i].w == wins[front].w,
        wins[i].h == wins[front].h,
        forall|j: int| 0 <= j < front ==> #[trigger] wins[j] != wins[i],
    ensures
        !windows::sanitized(wins, cfg).contains(wins[i]),
{
    let ok = |w: Win| windows::passes_basic(w, cfg);
    let b = basic(wins, cfg);
    lemma_filter_pos(wins, ok, front);
    let f = basic_pos(wins, cfg, front);
    if windows::sanitized(wins, cfg).contains(wins[i]) {
        let k = choose|k: int|
            0 <= k < windows::sanitized(wins, cfg).len() && windows::sanitized(wins, cfg)[k]
                == wins[i];
        let s = lemma_listed_from(wins, cfg, k);
        assert(s.0 > front);
        lemma_filter_pos_ascends(wins, ok, front, s.0);
        assert(windows::same_place(b[f], b[basic_pos(wins, cfg, s.0)]));
        assert(b[f].pid == b[basic_pos(wins, cfg, s.0)].pid);
    }
}

/// The basic filter in numbers: every listed window is in the normal layer, on
/// screen, at most 5 % translucent and at least as large as configured.
pub proof fn law_listed_windows_are_real(wins: Seq<Win>, cfg: &Config, k: int)
    requires
        0 <= k < windows::sanitized(wins, cfg).len(),
    ensures
        ({
            let w = windows::sanitized(wins, cfg)[k];
            &&& w.layer == 0
            &&& w.onscreen
            &&& w.alpha >= 950_000
            &&& w.w >= cfg.min_window_w
            &&& w.h >= cfg.min_window_h
            &&& forall|t: int, a: Seq<char>, z: Seq<char>|
                0 <= t < cfg.filter_terms@.len() ==> w.title@ != #[trigger] (a
                    + cfg.filter_terms@[t]@ + z) && w.owner@ != a + cfg.filter_terms@[t]@ + z
        }),
{
    law_sanitize_only_filters(wins, cfg, k);
    let w = windows::sanitized(wins, cfg)[k];
    assert forall|t: int, a: Seq<char>, z: Seq<char>|
        0 <= t < cfg.filter_terms@.len() implies w.title@ != #[trigger] (a + cfg.filter_terms@[t]@
        + z) && w.owner@ != a + cfg.filter_terms@[t]@ + z by {
        let whole = a + cfg.filter_terms@[t]@ + z;
        let term = cfg.filter_terms@[t]@;
        assert(whole.subrange(a.len() as int, (a.len() + term.len()) as int) =~= term);
        assert(util::occurs_at(whole, term, a.len() as int));
        assert(!windows::has_filter_term(w, cfg.filter_terms@));
    }
}

/// Nothing else is asked of a window by the basic filter, apart from its owner.
pub proof fn law_basic_filter_asks_no_more(w: Win, cfg: &Config)
    requires
        w.layer == 0,
        w.onscreen,
        w.alpha >= 950_000,
        w.w >= cfg.min_window_w,
        w.h >= cfg.min_window_h,
        !windows::noise_owner(w.owner@),
        forall|t: int, k: int|
            0 <= t < cfg.filter_terms@.len() && 0 <= k <= w.title@.len()
                - cfg.filter_terms@[t]@.len() ==> #[trigger] w.title@.subrange(
                k,
                k + cfg.filter_terms@[t]@.len(),
            ) != cfg.filter_terms@[t]@,
        forall|t: int, k: int|
            0 <= t < cfg.filter_terms@.len() && 0 <= k <= w.owner@.len()
                - cfg.filter_terms@[t]@.len() ==> #[trigger] w.owner@.subrange(
                k,
                k + cfg.filter_terms@[t]@.len(),
            ) != cfg.filter_terms@[t]@,
    ensures
        windows::passes_basic(w, cfg),
{
    assert forall|t: int| 0 <= t < cfg.filter_terms@.len() implies !util::contains_text(
        w.owner@,
        (#[trigger] cfg.filter_terms@[t])@,
    ) && !util::contains_text(w.title@, cfg.filter_terms@[t]@) by {
        let term = cfg.filter_terms@[t]@;
        assert forall|k: int| !util::occurs_at(w.owner@, term, k) by {
            if 0 <= k <= w.owner@.len() - term.len() {
                assert(w.owner@.subrange(k, k + cfg.filter_terms@[t]@.len()) != term);
            }
        }
        assert forall|k: int| !util::occurs_at(w.title@, term, k) by {
            if 0 <= k <= w.title@.len() - term.len() {
                assert(w.title@.subrange(k, k + cfg.filter_terms@[t]@.len()) != term);
            }
        }
    }
}

// ---------- the entries, in numbers ----------

/// Displays are isolated: every entry's centre lies on the display, edges
/// included, going by the entry's own bounds.
pub proof fn law_entry_centres_are_on_the_display(
    wins: Seq<Win>,
    cfg: &Config,
    mode: Mode,
    our_pid: u32,
    display: (i32, i32, i32, i32),
    front_pid: Option<i32>,
    k: int,
)
    requires
        0 <= k < windows::collected(wins, cfg, mode, our_pid, Some(display), front_pid).len(),
    ensures
        ({
            let e = windows::collected(wins, cfg, mode, our_pid, Some(display), front_pid)[k];
            let (bx, by, bw, bh) = display;
            &&& 2 * bx <= 2 * e.x + e.w <= 2 * (bx + bw)
            &&& 2 * by <= 2 * e.y + e.h <= 2 * (by + bh)
        }),
{
    let clean = windows::sanitized(wins.filter(|w: Win| w.pid != our_pid as i32), cfg);
    law_entries_are_on_the_display(clean, mode, display, front_pid, our_pid, k);
}

/// Every real window whose centre lies on the display is listed by the desktop
/// switcher, with its own id, app, texts and bounds.
pub proof fn law_windows_on_the_display_are_listed(
    wins: Seq<Win>,
    display: (i32, i32, i32, i32),
    front_pid: Option<i32>,
    our_pid: u32,
    i: int,
) -> (k: int)
    requires
        0 <= i < wins.len(),
        2 * display.0 <= 2 * wins[i].x + wins[i].w <= 2 * (display.0 + display.2),
        2 * display.1 <= 2 * wins[i].y + wins[i].h <= 2 * (display.1 + display.3),
    ensures
        0 <= k < windows::scoped(wins, Mode::Space, Some(display), front_pid, our_pid).len(),
        ({
            let e = windows::scoped(wins, Mode::Space, Some(display), front_pid, our_pid)[k];
            &&& e.id == wins[i].id && e.pid == wins[i].pid
            &&& e.owner == wins[i].owner && e.title == wins[i].title
            &&& e.x == wins[i].x && e.y == wins[i].y && e.w == wins[i].w && e.h == wins[i].h
        }),
{
    let pick = |w: Win| windows::listed(w, Mode::Space, Some(display), front_pid, our_pid);
    lemma_filter_pos(wins, pick, i);
    wins.take(i).filter(pick).len() as int
}

/// The app switcher lists the windows of the frontmost app on the display, all
/// of them and no others.
pub proof fn law_app_switcher_lists_the_front_app(
    wins: Seq<Win>,
    display: (i32, i32, i32, i32),
    front: i32,
    our_pid: u32,
    i: int,
) -> (k: int)
    requires
        0 <= i < wins.len(),
        front > 0,
        front != our_pid as i32,
        wins[i].pid == front,
        2 * display.0 <= 2 * wins[i].x + wins[i].w <= 2 * (display.0 + display.2),
        2 * display.1 <= 2 * wins[i].y + wins[i].h <= 2 * (display.1 + display.3),
    ensures
        0 <= k < windows::scoped(wins, Mode::App, Some(display), Some(front), our_pid).len(),
        windows::scoped(wins, Mode::App, Some(display), Some(front), our_pid)[k].id == wins[i].id,
        forall|m: int|
            0 <= m < windows::scoped(wins, Mode::App, Some(display), Some(front), our_pid).len()
                ==> (#[trigger] windows::scoped(
                wins,
                Mode::App,
                Some(display),
                Some(front),
                our_pid,
            )[m]).pid == front,
{
    let pick = |w: Win| windows::listed(w, Mode::App, Some(display), Some(front), our_pid);
    let f = wins.filter(pick);
    assert forall|m: int|
        0 <= m < windows::scoped(wins, Mode::App, Some(display), Some(front), our_pid).len() implies (
    #[trigger] windows::scoped(wins, Mode::App, Some(display), Some(front), our_pid)[m]).pid
        == front by {
        let j = lemma_filter_src(wins, pick, m);
        assert(f[m] == wins[j]);
    }
    lemma_filter_pos(wins, pick, i);
    wins.take(i).filter(pick).len() as int
}

/// Without a display to go by nothing is left out, and the entries keep the
/// order of the windows.
pub proof fn law_entries_keep_the_window_order(
    wins: Seq<Win>,
    front_pid: Option<i32>,
    our_pid: u32,
    i: int,
)
    requires
        0 <= i < wins.len(),
    ensures
        windows::scoped(wins, Mode::Space, None, front_pid, our_pid).len() == wins.len(),
        windows::scoped(wins, Mode::Space, None, front_pid, our_pid)[i].id == wins[i].id,
{
    let pick = |w: Win| windows::listed(w, Mode::Space, None, front_pid, our_pid);
    assert forall|k: int| 0 <= k < wins.len() implies #[trigger] pick(wins[k]) by {}
    lemma_filter_keeps_all(wins, pick);
}

/// An entry knows its window's shape: width over height in millionths, rounded
/// down and kept between 0.4 and 3; a window that is at most a point high
/// counts as a square.
pub proof fn law_entries_know_their_shape(w: Win, n: nat)
    ensures
        ({
            let a = windows::item_of(w, n).aspect;
            &&& 400_000 <= a <= 3_000_000
            &&& w.h <= 1_000 ==> a == 1_000_000
            &&& w.h > 1_000 && 400_000 < a < 3_000_000 ==> a * w.h <= w.w * 1_000_000 < (a + 1)
                * w.h
            &&& w.h > 1_000 && a == 400_000 ==> w.w * 1_000_000 < 400_001 * w.h
            &&& w.h > 1_000 && a == 3_000_000 ==> w.w * 1_000_000 >= 3_000_000 * w.h
        }),
{
    let q = w.w * 1_000_000 / (w.h as int);
    if w.h > 1_000 {
        let x = w.w * 1_000_000;
        let h = w.h as int;
        vstd::arithmetic::div_mod::lemma_fundamental_div_mod(x, h);
        assert(q * h <= x < (q + 1) * h) by (nonlinear_arith)
            requires
                x == h * q + x % h,
                0 <= x % h < h,
        ;
        if q < 400_000 {
            assert((q + 1) * h <= 400_001 * h) by (nonlinear_arith)
                requires
                    q < 400_000,
                    h > 0,
            ;
        }
        if q >= 3_000_000 {
            assert(q * h >= 3_000_000 * h) by (nonlinear_arith)
                requires
                    q >= 3_000_000,
                    h > 0,
            ;
        }
    }
}

/// An entry says that its window is the only one of its app exactly if no other
/// window of the app was found, on whatever display.
pub proof fn law_entries_know_their_siblings(
    wins: Seq<Win>,
    mode: Mode,
    display: Option<(i32, i32, i32, i32)>,
    front_pid: Option<i32>,
    our_pid: u32,
    k: int,
)
    requires
        wins.len() <= usize::MAX,
        0 <= k < windows::scoped(wins, mode, display, front_pid, our_pid).len(),
    ensures
        ({
            let e = windows::scoped(wins, mode, display, front_pid, our_pid)[k];
            &&& e.n_same_pid >= 1
            &&& e.n_same_pid == 1 <==> !exists|i: int, j: int|
                0 <= i < j < wins.len() && (#[trigger] wins[i]).pid == e.pid && (
                #[trigger] wins[j]).pid == e.pid
        }),
{
    let pick = |w: Win| windows::listed(w, mode, display, front_pid, our_pid);
    let e = windows::scoped(wins, mode, display, front_pid, our_pid)[k];
    let m = lemma_filter_src(wins, pick, k);
    let mine = |w: Win| w.pid == e.pid;
    assert(mine(wins[m]));
    lemma_filter_pos(wins, mine, m);
    wins.lemma_filter_len(mine);
    let n = wins.filter(mine).len();
    assert(windows::app_count(wins, e.pid) == n);
    if n > 1 {
        let i = lemma_filter_src(wins, mine, 0);
        let j = lemma_filter_src(wins, mine, 1);
        if j < i {
            lemma_filter_pos_ascends(wins, mine, j, i);
        }
        assert(wins[i].pid == e.pid && wins[j].pid == e.pid);
    }
    if exists|i: int, j: int|
        0 <= i < j < wins.len() && (#[trigger] wins[i]).pid == e.pid && (#[trigger] wins[j]).pid
            == e.pid {
        let (i, j) = choose|i: int, j: int|
            0 <= i < j < wins.len() && (#[trigger] wins[i]).pid == e.pid && (
            #[trigger] wins[j]).pid == e.pid;
        assert(mine(wins[i]) && mine(wins[j]));
        lemma_filter_pos_ascends(wins, mine, i, j);
        lemma_filter_pos(wins, mine, j);
    }
}

/// The desktop switcher lists every real window of another process whose centre
/// lies on the display.
pub proof fn law_real_windows_are_listed(
    wins: Seq<Win>,
    cfg: &Config,
    our_pid: u32,
    display: (i32, i32, i32, i32),
    front_pid: Option<i32>,
    i: int,
) -> (k: int)
    requires
        0 <= i < wins.len(),
        wins[i].pid != our_pid as i32,
        windows::passes_basic(wins[i], cfg),
        stands_for_itself(wins, i),
        2 * display.0 <= 2 * wins[i].x + wins[i].w <= 2 * (display.0 + display.2),
        2 * display.1 <= 2 * wins[i].y + wins[i].h <= 2 * (display.1 + display.3),
    ensures
        0 <= k < windows::collected(
            wins,
            cfg,
            Mode::Space,
            our_pid,
            Some(display),
            front_pid,
        ).len(),
        ({
            let e = windows::collected(
                wins,
                cfg,
                Mode::Space,
                our_pid,
                Some(display),
                front_pid,
            )[k];
            e.id == wins[i].id && e.pid == wins[i].pid && e.title == wins[i].title
        }),
{
    let foreign = |w: Win| w.pid != our_pid as i32;
    let others = wins.filter(foreign);
    lemma_filter_pos(wins, foreign, i);
    let p = wins.take(i).filter(foreign).len() as int;
    assert forall|m: int|
        0 <= m < others.len() && m != p && (#[trigger] others[m]).pid == others[p].pid implies {
        ||| others[p].x < others[m].x - 2_000
        ||| others[p].y < others[m].y - 2_000
        ||| others[p].x + others[p].w > others[m].x + others[m].w + 2_000
        ||| others[p].y + others[p].h > others[m].y + others[m].h + 2_000
        ||| (others[p].w * others[p].h) * 10 >= (others[m].w * others[m].h) * 3
    } by {
        let j = lemma_filter_src(wins, foreign, m);
        assert(j != i);
        assert(wins[j].pid == wins[i].pid);
    }
    assert(stands_for_itself(others, p));
    law_real_windows_are_kept(others, cfg, p);
    let clean = windows::sanitized(others, cfg);
    let c = choose|c: int| 0 <= c < clean.len() && clean[c] == wins[i];
    law_windows_on_the_display_are_listed(clean, display, front_pid, our_pid, c)
}

/// The switcher's own windows are never listed.
pub proof fn law_own_windows_are_left_out(
    wins: Seq<Win>,
    cfg: &Config,
    mode: Mode,
    our_pid: u32,
    display: Option<(i32, i32, i32, i32)>,
    front_pid: Option<i32>,
    k: int,
)
    requires
        0 <= k < windows::collected(wins, cfg, mode, our_pid, display, front_pid).len(),
    ensures
        windows::collected(wins, cfg, mode, our_pid, display, front_pid)[k].pid != our_pid as i32,
{
    law_only_active_windows_are_listed(wins, cfg, mode, our_pid, display, front_pid, k);
}

/// The fingerprint of a display covers the windows in the normal layer whose
/// centre lies on it, whatever they look like, apart from system furniture.
pub proof fn law_fingerprint_covers_the_display(w: Win, display: (i32, i32, i32, i32))
    requires
        !windows::noise_owner(w.owner@),
    ensures
        windows::fingerprinted(w, display) <==> {
            &&& w.layer == 0
            &&& 2 * display.0 <= 2 * w.x + w.w <= 2 * (display.0 + display.2)
            &&& 2 * display.1 <= 2 * w.y + w.h <= 2 * (display.1 + display.3)
        },
{
}

/// Two texts that are the same up to the case of ASCII letters, in numbers.
pub open spec fn differ_in_case_only(a: Seq<char>, b: Seq<char>) -> bool {
    &&& a.len() == b.len()
    &&& forall|i: int|
        0 <= i < a.len() ==> {
            let x = #[trigger] a[i] as u32;
            let y = b[i] as u32;
            ||| x == y
            ||| x + 32 == y && 65 <= x <= 90
            ||| y + 32 == x && 65 <= y <= 90
        }
}

/// System furniture is known by the name of its process, in whatever case, and
/// nothing else is taken for it.
pub proof fn law_system_furniture_goes_by_its_name(owner: Seq<char>)
    ensures
        windows::noise_owner(owner) <==> {
            ||| differ_in_case_only(owner, "Window Server"@)
            ||| differ_in_case_only(owner, "Dock"@)
            ||| differ_in_case_only(owner, "Control Center"@)
            ||| differ_in_case_only(owner, "Notification Center"@)
            ||| differ_in_case_only(owner, "Spotlight"@)
            ||| differ_in_case_only(owner, "Siri"@)
            ||| differ_in_case_only(owner, "TextInputMenuAgent"@)
            ||| differ_in_case_only(owner, "SystemUIServer"@)
            ||| differ_in_case_only(owner, "loginwindow"@)
        },
{
    lemma_case(owner, "Window Server"@);
    lemma_case(owner, "Dock"@);
    lemma_case(owner, "Control Center"@);
    lemma_case(owner, "Notification Center"@);
    lemma_case(owner, "Spotlight"@);
    lemma_case(owner, "Siri"@);
    lemma_case(owner, "TextInputMenuAgent"@);
    lemma_case(owner, "SystemUIServer"@);
    lemma_case(owner, "loginwindow"@);
}

proof fn lemma_case(a: Seq<char>, b: Seq<char>)
    ensures
        util::same_ignoring_case(a, b) <==> differ_in_case_only(a, b),
{
    if util::same_ignoring_case(a, b) {
        assert forall|i: int| 0 <= i < a.len() implies {
            let x = #[trigger] a[i] as u32;
            let y = b[i] as u32;
            ||| x == y
            ||| x + 32 == y && 65 <= x <= 90
            ||| y + 32 == x && 65 <= y <= 90
        } by {
            assert(util::ascii_lower(a[i]) == util::ascii_lower(b[i]));
        }
    }
    if differ_in_case_only(a, b) {
        assert forall|i: int| 0 <= i < a.len() implies util::ascii_lower(#[trigger] a[i])
            == util::ascii_lower(b[i]) by {
            assert(a[i] as u32 == a[i] as u32);
        }
    }
}

/// What the window server says about a window is taken over as it is.
pub proof fn law_read_attributes_are_taken_over(raw: windows::RawWin, w: Win)
    requires
        windows::describes(raw, w),
    ensures
        raw.number matches Some(n) ==> n >= 0 ==> w.id == n,
        raw.pid matches Some(p) ==> w.pid == p,
        raw.owner matches Some(o) ==> w.owner@ == o@,
        raw.title matches Some(t) ==> w.title@ == t@,
        raw.title is None ==> w.title@.len() == 0,
        raw.bounds matches Some(b) ==> w.x == b.0 && w.y == b.1 && w.w == b.2 && w.h == b.3,
        raw.bounds is None ==> w.w == 0 && w.h == 0,
        raw.layer matches Some(l) ==> w.layer == l,
        raw.alpha matches Some(a) ==> w.alpha == a,
        raw.alpha is None ==> w.alpha == 1_000_000,
        w.onscreen <==> raw.onscreen == Some(true),
{
}

/// Between two shows the thumbnails of all windows are kept warm that pass the
/// basic filter, overlay layers included, but never those of the switcher.
pub proof fn law_warm_windows(w: Win, cfg: &Config, our_pid: u32)
    ensures
        windows::warm(w, cfg, our_pid) ==> w.pid != our_pid as i32 && w.layer == 0 && w.onscreen
            && w.alpha >= 950_000 && w.w >= cfg.min_window_w && w.h >= cfg.min_window_h,
        w.pid != our_pid as i32 && windows::passes_basic(w, cfg) ==> windows::warm(
            w,
            cfg,
            our_pid,
        ),
{
}

/// A sorted list of ids never goes down, one without duplicates always up.
pub proof fn law_sorted_ids_ascend(ids: Seq<u32>, i: int)
    requires
        0 <= i < ids.len() - 1,
    ensures
        windows::sorted(ids) ==> ids[i] <= ids[i + 1],
        windows::strictly_sorted(ids) ==> ids[i] < ids[i + 1],
{
}

} // verus!
