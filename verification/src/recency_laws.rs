//! Laws of the order of recent windows and of the quick switch target.

use crate::recency;
use crate::state::Item;
use vstd::prelude::*;

verus! {

/// A window that was just used is the most recent one, and using it again
/// changes nothing.
pub proof fn law_touched_comes_first(mru: Seq<u32>, id: u32)
    ensures
        recency::touched(mru, id)[0] == id,
        recency::touched(recency::touched(mru, id), id) == recency::touched(mru, id),
{
    let t = recency::touched(mru, id);
    mru.index_of_first_ensures(id);
    t.index_of_first_ensures(id);
    assert(t[0] == id);
    assert(t.contains(id));
    assert(t.index_of_first(id)->0 == 0) by {
        let p = t.index_of_first(id)->0;
        assert(t[p] == id);
        if p > 0 {
            assert(t.take(p)[0] == id);
        }
    }
    assert(seq![id] + t.remove(0) =~= t);
}

/// Using a window keeps the order of all other windows and forgets none.
pub proof fn law_touching_keeps_the_rest(mru: Seq<u32>, id: u32)
    requires
        mru.no_duplicates(),
    ensures
        recency::touched(mru, id).drop_first() == mru.filter(|x: u32| x != id),
        forall|x: u32|
            recency::touched(mru, id).contains(x) <==> x == id || #[trigger] mru.contains(x),
{
    let t = recency::touched(mru, id);
    let p = |x: u32| x != id;
    mru.index_of_first_ensures(id);
    if mru.contains(id) {
        let i = mru.index_of_first(id)->0;
        let head = mru.take(i);
        let rest = mru.skip(i + 1);
        assert(mru =~= head + seq![id] + rest);
        assert(t.drop_first() =~= head + rest);
        lemma_filter_all(head, p);
        assert forall|k: int| 0 <= k < rest.len() implies p(#[trigger] rest[k]) by {
            assert(rest[k] == mru[k + i + 1]);
        }
        lemma_filter_all(rest, p);
        Seq::filter_distributes_over_add(head + seq![id], rest, p);
        Seq::filter_distributes_over_add(head, seq![id], p);
        seq![id].lemma_all_neg_filter_empty(p);
        assert(seq![id].filter(p) =~= Seq::empty());
        assert(head + Seq::empty() + rest =~= head + rest);
        assert forall|x: u32| t.contains(x) <==> x == id || #[trigger] mru.contains(x) by {
            if t.contains(x) && x != id {
                let k = choose|k: int| 0 <= k < t.len() && t[k] == x;
                assert(t.drop_first()[k - 1] == x);
                if k - 1 < i {
                    assert(mru[k - 1] == x);
                } else {
                    assert(mru[k] == x);
                }
            }
            if mru.contains(x) && x != id {
                let k = choose|k: int| 0 <= k < mru.len() && mru[k] == x;
                if k < i {
                    assert(t[k + 1] == x);
                } else {
                    assert(t[k] == x);
                }
            }
            assert(t[0] == id);
        }
    } else {
        assert(t.drop_first() =~= mru);
        lemma_filter_all(mru, p);
        assert forall|x: u32| t.contains(x) <==> x == id || #[trigger] mru.contains(x) by {
            if t.contains(x) && x != id {
                let k = choose|k: int| 0 <= k < t.len() && t[k] == x;
                assert(mru[k - 1] == x);
            }
            if mru.contains(x) {
                let k = choose|k: int| 0 <= k < mru.len() && mru[k] == x;
                assert(t[k + 1] == x);
            }
            assert(t[0] == id);
        }
    }
}

/// Filtering with a property that all have changes nothing.
proof fn lemma_filter_all<A>(s: Seq<A>, p: spec_fn(A) -> bool)
    requires
        forall|k: int| 0 <= k < s.len() ==> p(#[trigger] s[k]),
    ensures
        s.filter(p) == s,
    decreases s.len(),
{
    reveal(Seq::filter);
    if s.len() > 0 {
        assert(p(s[s.len() - 1]));
        assert forall|k: int| 0 <= k < s.drop_last().len() implies p(#[trigger] s.drop_last()[k]) by {
            assert(s.drop_last()[k] == s[k]);
        }
        lemma_filter_all(s.drop_last(), p);
        assert(s.drop_last().push(s.last()) =~= s);
    } else {
        assert(s.filter(p) =~= s);
    }
}

/// A sequence holds an element as often as the part of it that is filtered by
/// a property of the element.
proof fn lemma_filter_keeps_count(s: Seq<Item>, p: spec_fn(Item) -> bool, x: Item)
    requires
        p(x),
    ensures
        s.to_multiset().count(x) == s.filter(p).to_multiset().count(x),
    decreases s.len(),
{
    broadcast use vstd::seq_lib::group_to_multiset_ensures;

    reveal(Seq::filter);
    if s.len() > 0 {
        let t = s.drop_last();
        lemma_filter_keeps_count(t, p, x);
        assert(s =~= t.push(s.last()));
        assert(s.to_multiset() =~= t.to_multiset().insert(s.last()));
        if p(s.last()) {
            assert(s.filter(p) == t.filter(p).push(s.last()));
            assert(s.filter(p).to_multiset() =~= t.filter(p).to_multiset().insert(s.last()));
        } else {
            assert(s.filter(p) == t.filter(p));
        }
    } else {
        assert(s.filter(p) =~= s);
    }
}

/// Ordering the entries loses none, adds none and doubles none.
pub proof fn law_ordering_keeps_the_entries(before: Seq<Item>, after: Seq<Item>, order: Seq<u32>)
    requires
        recency::ordered_by(before, after, order),
    ensures
        after.to_multiset() == before.to_multiset(),
{
    assert forall|x: Item| #[trigger]
        after.to_multiset().count(x) == before.to_multiset().count(x) by {
        let r = recency::rank(order, x.id);
        let p = |i: Item| recency::rank(order, i.id) == r;
        lemma_filter_keeps_count(after, p, x);
        lemma_filter_keeps_count(before, p, x);
        assert(recency::of_rank(after, order, r) == recency::of_rank(before, order, r));
    }
    assert(after.to_multiset() =~= before.to_multiset());
}

/// The order is fixed by the entries and the ranks: it leaves no choice.
pub proof fn law_order_is_determined(
    before: Seq<Item>,
    one: Seq<Item>,
    two: Seq<Item>,
    order: Seq<u32>,
)
    requires
        recency::ordered_by(before, one, order),
        recency::ordered_by(before, two, order),
    ensures
        one == two,
{
    assert forall|r: int| #[trigger]
        recency::of_rank(one, order, r) == recency::of_rank(two, order, r) by {
        assert(recency::of_rank(one, order, r) == recency::of_rank(before, order, r));
        assert(recency::of_rank(two, order, r) == recency::of_rank(before, order, r));
    }
    lemma_same_ranks_same_order(one, two, order);
}

/// An entry stands among those of its rank.
proof fn lemma_in_rank(s: Seq<Item>, order: Seq<u32>, k: int)
    requires
        0 <= k < s.len(),
    ensures
        recency::of_rank(s, order, recency::rank(order, s[k].id)).contains(s[k]),
        recency::of_rank(s, order, recency::rank(order, s[k].id)).len() > 0,
{
    broadcast use vstd::seq_lib::group_filter_ensures;

    let p = |i: Item| recency::rank(order, i.id) == recency::rank(order, s[k].id);
    s.lemma_filter_contains(p, k);
    assert(s.filter(p).contains(s[k]));
}

proof fn lemma_same_ranks_same_order(one: Seq<Item>, two: Seq<Item>, order: Seq<u32>)
    requires
        recency::ranks_ascend(one, order),
        recency::ranks_ascend(two, order),
        forall|r: int| #[trigger]
            recency::of_rank(one, order, r) == recency::of_rank(two, order, r),
    ensures
        one == two,
    decreases one.len(),
{
    if one.len() == 0 {
        if two.len() > 0 {
            let r = recency::rank(order, two[0].id);
            lemma_in_rank(two, order, 0);
            assert(recency::of_rank(one, order, r) == recency::of_rank(two, order, r));
            one.lemma_filter_len(|i: Item| recency::rank(order, i.id) == r);
        }
        assert(one =~= two);
    } else {
        let r1 = recency::rank(order, one[0].id);
        lemma_in_rank(one, order, 0);
        assert(recency::of_rank(one, order, r1) == recency::of_rank(two, order, r1));
        if two.len() == 0 {
            two.lemma_filter_len(|i: Item| recency::rank(order, i.id) == r1);
        }
        let r2 = recency::rank(order, two[0].id);
        lemma_in_rank(two, order, 0);
        assert(recency::of_rank(one, order, r2) == recency::of_rank(two, order, r2));
        lemma_lowest_rank(one, order, r2);
        lemma_lowest_rank(two, order, r1);
        assert(r1 == r2);
        let a = one.drop_first();
        let b = two.drop_first();
        assert(one =~= seq![one[0]] + a);
        assert(two =~= seq![two[0]] + b);
        let p = |i: Item| recency::rank(order, i.id) == r1;
        a.lemma_filter_prepend(one[0], p);
        b.lemma_filter_prepend(two[0], p);
        assert(one.filter(p) == seq![one[0]] + a.filter(p));
        assert(two.filter(p) == seq![two[0]] + b.filter(p));
        assert(one.filter(p)[0] == one[0]);
        assert(two.filter(p)[0] == two[0]);
        assert(one[0] == two[0]);
        assert(recency::ranks_ascend(a, order)) by {
            assert forall|i: int, j: int| 0 <= i <= j < a.len() implies recency::rank(
                order,
                #[trigger] a[i].id,
            ) <= recency::rank(order, #[trigger] a[j].id) by {
                assert(a[i] == one[i + 1]);
                assert(a[j] == one[j + 1]);
            }
        }
        assert(recency::ranks_ascend(b, order)) by {
            assert forall|i: int, j: int| 0 <= i <= j < b.len() implies recency::rank(
                order,
                #[trigger] b[i].id,
            ) <= recency::rank(order, #[trigger] b[j].id) by {
                assert(b[i] == two[i + 1]);
                assert(b[j] == two[j + 1]);
            }
        }
        assert forall|r: int| #[trigger]
            recency::of_rank(a, order, r) == recency::of_rank(b, order, r) by {
            let q = |i: Item| recency::rank(order, i.id) == r;
            a.lemma_filter_prepend(one[0], q);
            b.lemma_filter_prepend(two[0], q);
            assert(recency::of_rank(one, order, r) == recency::of_rank(two, order, r));
            if r == r1 {
                assert(a.filter(q) =~= one.filter(q).drop_first());
                assert(b.filter(q) =~= two.filter(q).drop_first());
            }
        }
        lemma_same_ranks_same_order(a, b, order);
    }
}

/// No entry has a lower rank than the first one.
proof fn lemma_lowest_rank(s: Seq<Item>, order: Seq<u32>, r: int)
    requires
        recency::ranks_ascend(s, order),
        recency::of_rank(s, order, r).len() > 0,
    ensures
        s.len() > 0,
        recency::rank(order, s[0].id) <= r,
{
    broadcast use vstd::seq_lib::group_filter_ensures;

    let p = |i: Item| recency::rank(order, i.id) == r;
    let f = s.filter(p);
    s.lemma_filter_len(p);
    s.lemma_filter_pred(p, 0);
    assert(f.contains(f[0]));
    lemma_filter_from(s, p, f[0]);
    let k = choose|k: int| 0 <= k < s.len() && s[k] == f[0];
    assert(recency::rank(order, s[0].id) <= recency::rank(order, s[k].id));
}

/// What is left by a filter was there before.
proof fn lemma_filter_from(s: Seq<Item>, p: spec_fn(Item) -> bool, x: Item)
    requires
        s.filter(p).contains(x),
    ensures
        s.contains(x),
    decreases s.len(),
{
    reveal(Seq::filter);
    if s.len() > 0 {
        let t = s.drop_last();
        let k = choose|k: int| 0 <= k < s.filter(p).len() && s.filter(p)[k] == x;
        if p(s.last()) && k == t.filter(p).len() {
            assert(s[s.len() - 1] == x);
        } else {
            assert(t.filter(p)[k] == x);
            lemma_filter_from(t, p, x);
            let m = choose|m: int| 0 <= m < t.len() && t[m] == x;
            assert(s[m] == x);
        }
    }
}

/// Lists of the same entries list the same windows.
pub proof fn lemma_same_entries(before: Seq<Item>, after: Seq<Item>, k: int)
    requires
        after.to_multiset() == before.to_multiset(),
        0 <= k < after.len(),
    ensures
        before.contains(after[k]),
        recency::has_window(before, after[k].id),
{
    broadcast use vstd::seq_lib::group_to_multiset_ensures;

    assert(after.contains(after[k]));
    assert(after.to_multiset().count(after[k]) > 0);
    assert(before.contains(after[k]));
    let i = choose|i: int| 0 <= i < before.len() && before[i] == after[k];
    assert(before[i].id == after[k].id);
}

/// The window to select stands first, if it is there.
pub proof fn law_selected_window_comes_first(
    before: Seq<Item>,
    after: Seq<Item>,
    mru: Seq<u32>,
    sel: u32,
    active: Option<u32>,
)
    requires
        recency::ordered_by(before, after, recency::priority(mru, Some(sel), active)),
        recency::has_window(before, sel),
    ensures
        after.len() > 0,
        after[0].id == sel,
{
    let order = recency::priority(mru, Some(sel), active);
    order.index_of_first_ensures(sel);
    assert(order[0] == sel);
    assert(order.contains(sel));
    assert(recency::rank(order, sel) == 0);
    let k = choose|k: int| 0 <= k < before.len() && (#[trigger] before[k]).id == sel;
    lemma_in_rank(before, order, k);
    assert(recency::of_rank(after, order, 0) == recency::of_rank(before, order, 0));
    lemma_lowest_rank(after, order, 0);
    order.index_of_first_ensures(after[0].id);
}

/// The active window stands next to the selected one: it is the second entry,
/// if both are there and no window is listed twice.
pub proof fn law_active_window_comes_second(
    before: Seq<Item>,
    after: Seq<Item>,
    mru: Seq<u32>,
    sel: u32,
    active: u32,
)
    requires
        recency::ordered_by(before, after, recency::priority(mru, Some(sel), Some(active))),
        recency::has_window(before, sel),
        recency::has_window(before, active),
        sel != active,
        forall|i: int, j: int|
            0 <= i < j < after.len() ==> (#[trigger] after[i]).id != (#[trigger] after[j]).id,
    ensures
        after.len() > 1,
        after[1].id == active,
{
    let order = recency::priority(mru, Some(sel), Some(active));
    law_selected_window_comes_first(before, after, mru, sel, Some(active));
    order.index_of_first_ensures(active);
    assert(order[1] == active);
    assert(order[0] == sel);
    assert(order.contains(active));
    let r = recency::rank(order, active);
    assert(r == 1);
    let k = choose|k: int| 0 <= k < before.len() && (#[trigger] before[k]).id == active;
    lemma_in_rank(before, order, k);
    assert(recency::of_rank(after, order, r) == recency::of_rank(before, order, r));
    let p = |i: Item| recency::rank(order, i.id) == r;
    lemma_filter_from(after, p, before[k]);
    let m = choose|m: int| 0 <= m < after.len() && after[m] == before[k];
    assert(m > 0);
    assert(recency::rank(order, after[1].id) <= recency::rank(order, after[m].id));
    order.index_of_first_ensures(after[1].id);
    assert(after[0].id != after[1].id);
    let q = order.index_of_first(after[1].id)->0;
    assert(order[q] == after[1].id);
}

/// The order of the entries depends on the windows' ids alone, so that an
/// ordered list does not change when it is ordered again.
pub proof fn law_ordering_again_changes_nothing(
    before: Seq<Item>,
    after: Seq<Item>,
    again: Seq<Item>,
    order: Seq<u32>,
)
    requires
        recency::ordered_by(before, after, order),
        recency::ordered_by(after, again, order),
    ensures
        again == after,
{
    assert(recency::ordered_by(after, after, order));
    law_order_is_determined(after, again, after, order);
}

/// A quick switch leads to another window that is there, and to none only if
/// there is no other window.
pub proof fn law_target_is_another_window(items: Seq<Item>, current: u32, prev: Option<u32>)
    ensures
        recency::target_of(items, current, prev) matches Some(t) ==> t != current
            && recency::has_window(items, t),
        recency::target_of(items, current, prev) is None <==> forall|i: int|
            0 <= i < items.len() ==> (#[trigger] items[i]).id == current,
{
    let p = |i: Item| i.id != current;
    recency::lemma_first_such(items, p);
    match recency::first_such(items, p) {
        Some(item) => {
            let i = choose|i: int| 0 <= i < items.len() && #[trigger] items[i] == item && p(item);
            assert(items[i].id != current);
        },
        None => {
            if let Some(q) = prev {
                if q != current && recency::has_window(items, q) {
                    let i = choose|i: int| 0 <= i < items.len() && (#[trigger] items[i]).id == q;
                    assert(!p(items[i]));
                }
            }
        },
    }
}

/// Two quick switches in a row return to the window one came from.
pub proof fn law_toggle_returns(items: Seq<Item>, a: u32, b: u32)
    requires
        a != b,
        recency::has_window(items, a),
        recency::has_window(items, b),
    ensures
        recency::target_of(items, a, Some(b)) == Some(b),
        recency::target_of(items, b, Some(a)) == Some(a),
{
}

// ---------- the order, window by window ----------

/// Where a window stands in the order of precedence.
proof fn lemma_rank_in_numbers(mru: Seq<u32>, sel: Option<u32>, active: Option<u32>, id: u32)
    ensures
        ({
            let order = recency::priority(mru, sel, active);
            let r = recency::rank(order, id);
            let head = recency::as_seq(sel).len() + recency::as_seq(active).len();
            &&& order.len() == head + mru.len()
            &&& sel == Some(id) ==> r == 0
            &&& sel != Some(id) && active == Some(id) ==> r == recency::as_seq(sel).len()
            &&& sel != Some(id) && active != Some(id) && mru.contains(id) ==> {
                &&& head <= r < order.len()
                &&& mru[r - head] == id
                &&& forall|k: int| 0 <= k < r - head ==> mru[k] != id
            }
            &&& sel != Some(id) && active != Some(id) && !mru.contains(id) ==> r == order.len()
        }),
{
    let order = recency::priority(mru, sel, active);
    let a = recency::as_seq(sel);
    let b = recency::as_seq(active);
    let head = a.len() + b.len();
    order.index_of_first_ensures(id);
    assert forall|k: int| 0 <= k < mru.len() implies order[head + k] == #[trigger] mru[k] by {}
    if sel == Some(id) {
        assert(order[0] == id);
        assert(order.contains(id));
    } else if active == Some(id) {
        assert(order[a.len() as int] == id);
        assert(order.contains(id));
    } else if mru.contains(id) {
        let k = choose|k: int| 0 <= k < mru.len() && mru[k] == id;
        assert(order[head + k] == id);
        assert(order.contains(id));
        let r = recency::rank(order, id);
        assert(order[r] == id);
        assert forall|k: int| 0 <= k < r - head implies mru[k] != id by {
            assert(order[head + k] == mru[k]);
        }
    } else if order.contains(id) {
        let k = choose|k: int| 0 <= k < order.len() && order[k] == id;
        if k >= head {
            assert(mru[k - head] == id);
        }
    }
}

/// The entries are ordered by recency: of two windows that are neither the one
/// to select nor the active one, the one that was used later comes first,
/// however long ago that was.
pub proof fn law_later_used_windows_come_first(
    before: Seq<Item>,
    after: Seq<Item>,
    mru: Seq<u32>,
    sel: Option<u32>,
    active: Option<u32>,
    p: int,
    q: int,
    a: int,
    b: int,
)
    requires
        recency::ordered_by(before, after, recency::priority(mru, sel, active)),
        mru.no_duplicates(),
        0 <= p < q < mru.len(),
        sel != Some(mru[p]),
        sel != Some(mru[q]),
        active != Some(mru[p]),
        active != Some(mru[q]),
        0 <= a < after.len(),
        0 <= b < after.len(),
        after[a].id == mru[p],
        after[b].id == mru[q],
    ensures
        a < b,
{
    lemma_rank_in_numbers(mru, sel, active, mru[p]);
    lemma_rank_in_numbers(mru, sel, active, mru[q]);
    assert(mru.contains(mru[p]) && mru.contains(mru[q]));
    let order = recency::priority(mru, sel, active);
    if b <= a {
        assert(recency::rank(order, after[b].id) <= recency::rank(order, after[a].id));
    }
}

/// Every window that was used comes before every window that was not.
pub proof fn law_used_windows_come_before_unused_ones(
    before: Seq<Item>,
    after: Seq<Item>,
    mru: Seq<u32>,
    sel: Option<u32>,
    active: Option<u32>,
    a: int,
    b: int,
)
    requires
        recency::ordered_by(before, after, recency::priority(mru, sel, active)),
        0 <= a < after.len(),
        0 <= b < after.len(),
        mru.contains(after[a].id) || sel == Some(after[a].id) || active == Some(after[a].id),
        !mru.contains(after[b].id),
        sel != Some(after[b].id),
        active != Some(after[b].id),
    ensures
        a < b,
{
    lemma_rank_in_numbers(mru, sel, active, after[a].id);
    lemma_rank_in_numbers(mru, sel, active, after[b].id);
    let order = recency::priority(mru, sel, active);
    if b <= a {
        assert(recency::rank(order, after[b].id) <= recency::rank(order, after[a].id));
    }
}

/// The window to select comes before all others, and after it the active one.
pub proof fn law_selected_and_active_come_before_the_rest(
    before: Seq<Item>,
    after: Seq<Item>,
    mru: Seq<u32>,
    sel: Option<u32>,
    active: Option<u32>,
    a: int,
    b: int,
)
    requires
        recency::ordered_by(before, after, recency::priority(mru, sel, active)),
        0 <= a < after.len(),
        0 <= b < after.len(),
        sel != Some(after[b].id),
        sel == Some(after[a].id) || (active == Some(after[a].id) && active != Some(after[b].id)),
    ensures
        a < b,
{
    lemma_rank_in_numbers(mru, sel, active, after[a].id);
    lemma_rank_in_numbers(mru, sel, active, after[b].id);
    let order = recency::priority(mru, sel, active);
    if b <= a {
        assert(recency::rank(order, after[b].id) <= recency::rank(order, after[a].id));
    }
}

/// Windows that were never used keep the order in which they were found.
pub proof fn law_unused_windows_keep_their_order(
    before: Seq<Item>,
    after: Seq<Item>,
    mru: Seq<u32>,
    sel: Option<u32>,
    active: Option<u32>,
)
    requires
        recency::ordered_by(before, after, recency::priority(mru, sel, active)),
    ensures
        after.filter(
            |i: Item| sel != Some(i.id) && active != Some(i.id) && !mru.contains(i.id),
        ) == before.filter(
            |i: Item| sel != Some(i.id) && active != Some(i.id) && !mru.contains(i.id),
        ),
{
    let order = recency::priority(mru, sel, active);
    let last = order.len() as int;
    let unused = |i: Item| sel != Some(i.id) && active != Some(i.id) && !mru.contains(i.id);
    let p = |i: Item| recency::rank(order, i.id) == last;
    assert forall|i: Item| #[trigger] unused(i) == p(i) by {
        lemma_rank_in_numbers(mru, sel, active, i.id);
    }
    assert(recency::of_rank(after, order, last) == recency::of_rank(before, order, last));
    lemma_filter_same(after, unused, p);
    lemma_filter_same(before, unused, p);
}

/// Properties that agree filter alike.
proof fn lemma_filter_same(s: Seq<Item>, p: spec_fn(Item) -> bool, q: spec_fn(Item) -> bool)
    requires
        forall|i: Item| #[trigger] p(i) == q(i),
    ensures
        s.filter(p) == s.filter(q),
    decreases s.len(),
{
    reveal(Seq::filter);
    if s.len() > 0 {
        lemma_filter_same(s.drop_last(), p, q);
        assert(p(s.last()) == q(s.last()));
    }
}

/// A quick switch goes to the window that had the focus before, if it is still
/// there and another one.
pub proof fn law_quick_switch_prefers_the_previous_window(
    items: Seq<Item>,
    current: u32,
    prev: u32,
    i: int,
)
    requires
        0 <= i < items.len(),
        items[i].id == prev,
        prev != current,
    ensures
        recency::target_of(items, current, Some(prev)) == Some(prev),
{
}

/// Without such a window a quick switch goes to the first listed window that is
/// not the current one.
pub proof fn law_quick_switch_falls_back_to_the_first_other_window(
    items: Seq<Item>,
    current: u32,
    prev: Option<u32>,
    i: int,
)
    requires
        0 <= i < items.len(),
        items[i].id != current,
        forall|k: int| 0 <= k < i ==> (#[trigger] items[k]).id == current,
        prev matches Some(p) ==> p == current || forall|k: int|
            0 <= k < items.len() ==> (#[trigger] items[k]).id != p,
    ensures
        recency::target_of(items, current, prev) == Some(items[i].id),
{
    let p = |i: Item| i.id != current;
    recency::lemma_first_such(items, p);
    assert(p(items[i]));
    let item = recency::first_such(items, p)->0;
    let j = choose|j: int|
        0 <= j < items.len() && #[trigger] items[j] == item && forall|k: int|
            0 <= k < j ==> !p(#[trigger] items[k]);
    if i < j {
        assert(!p(items[i]));
    }
}

/// Looking up a window finds the first entry with its id.
pub proof fn law_window_is_found_by_its_id(items: Seq<Item>, id: u32, i: int)
    requires
        0 <= i < items.len(),
        items[i].id == id,
        forall|k: int| 0 <= k < i ==> (#[trigger] items[k]).id != id,
    ensures
        recency::window_with(items, id) == Some(items[i]),
{
    let p = |i: Item| i.id == id;
    recency::lemma_first_such(items, p);
    assert(p(items[i]));
    let item = recency::first_such(items, p)->0;
    let j = choose|j: int|
        0 <= j < items.len() && #[trigger] items[j] == item && forall|k: int|
            0 <= k < j ==> !p(#[trigger] items[k]);
    if i < j {
        assert(!p(items[i]));
    }
}

/// A window that is not among the entries is not found.
pub proof fn law_missing_window_is_not_found(items: Seq<Item>, id: u32)
    requires
        forall|k: int| 0 <= k < items.len() ==> (#[trigger] items[k]).id != id,
    ensures
        recency::window_with(items, id) is None,
{
    let p = |i: Item| i.id == id;
    recency::lemma_first_such(items, p);
    if let Some(item) = recency::first_such(items, p) {
        let j = choose|j: int| 0 <= j < items.len() && #[trigger] items[j] == item;
        assert(!p(items[j]));
    }
}

/// The first entry of an app is found by the app.
pub proof fn law_first_window_of_an_app(items: Seq<Item>, pid: i32, i: int)
    requires
        0 <= i < items.len(),
        items[i].pid == pid,
        forall|k: int| 0 <= k < i ==> (#[trigger] items[k]).pid != pid,
    ensures
        recency::id_of(recency::window_of_app(items, pid)) == Some(items[i].id),
{
    let p = |i: Item| i.pid == pid;
    recency::lemma_first_such(items, p);
    assert(p(items[i]));
    let item = recency::first_such(items, p)->0;
    let j = choose|j: int|
        0 <= j < items.len() && #[trigger] items[j] == item && forall|k: int|
            0 <= k < j ==> !p(#[trigger] items[k]);
    if i < j {
        assert(!p(items[i]));
    }
}

} // verus!
