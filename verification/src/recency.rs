//! Recently used windows: the order of the switcher's entries and the target
//! of a quick switch.

use crate::state::Item;
use std::collections::VecDeque;
use vstd::prelude::*;

verus! {

// ---------- the list of recent windows ----------

/// The list with `id` moved, or added, to its front.
pub open spec fn touched(mru: Seq<u32>, id: u32) -> Seq<u32> {
    if mru.contains(id) {
        seq![id] + mru.remove(mru.index_of_first(id)->0)
    } else {
        seq![id] + mru
    }
}

/// Move `id` to the front of the list of recent windows.
pub fn touch_mru(mru: &mut VecDeque<u32>, id: u32)
    ensures
        final(mru)@ == touched(old(mru)@, id),
        old(mru)@.no_duplicates() ==> final(mru)@.no_duplicates(),
{
    let n: usize = mru.len();
    let mut i: usize = 0;
    while i < n && mru[i] != id
        invariant
            i <= n,
            n == mru@.len(),
            mru@ == old(mru)@,
            forall|k: int| 0 <= k < i ==> mru@[k] != id,
        decreases n - i,
    {
        i += 1;
    }
    proof {
        mru@.index_of_first_ensures(id);
    }
    if i < n {
        assert(mru@.contains(id));
        mru.remove(i);
    }
    mru.push_front(id);
    proof {
        if old(mru)@.no_duplicates() {
            lemma_touched_no_duplicates(old(mru)@, id);
        }
    }
}

proof fn lemma_touched_no_duplicates(mru: Seq<u32>, id: u32)
    requires
        mru.no_duplicates(),
    ensures
        touched(mru, id).no_duplicates(),
{
    mru.index_of_first_ensures(id);
    let t = touched(mru, id);
    if mru.contains(id) {
        let p = mru.index_of_first(id)->0;
        assert forall|a: int, b: int| 0 <= a < b < t.len() implies t[a] != t[b] by {
            if a == 0 {
                assert(t[b] == (if b - 1 < p {
                    mru[b - 1]
                } else {
                    mru[b]
                }));
            } else {
                assert(t[a] == (if a - 1 < p {
                    mru[a - 1]
                } else {
                    mru[a]
                }));
                assert(t[b] == (if b - 1 < p {
                    mru[b - 1]
                } else {
                    mru[b]
                }));
            }
        }
    } else {
        assert forall|a: int, b: int| 0 <= a < b < t.len() implies t[a] != t[b] by {
            assert(t[b] == mru[b - 1]);
            if a > 0 {
                assert(t[a] == mru[a - 1]);
            }
        }
    }
}

// ---------- finding windows ----------

/// The window is among the entries.
pub open spec fn has_window(items: Seq<Item>, id: u32) -> bool {
    exists|i: int| 0 <= i < items.len() && (#[trigger] items[i]).id == id
}

pub fn present(items: &Vec<Item>, id: u32) -> (yes: bool)
    ensures
        yes == has_window(items@, id),
{
    let mut i: usize = 0;
    while i < items.len()
        invariant
            i <= items.len(),
            forall|k: int| 0 <= k < i ==> (#[trigger] items@[k]).id != id,
        decreases items.len() - i,
    {
        if items[i].id == id {
            return true;
        }
        i += 1;
    }
    false
}

/// First entry with the given property.
pub open spec fn first_such(items: Seq<Item>, p: spec_fn(Item) -> bool) -> Option<Item>
    decreases items.len(),
{
    if items.len() == 0 {
        None
    } else if p(items[0]) {
        Some(items[0])
    } else {
        first_such(items.drop_first(), p)
    }
}

pub open spec fn id_of(item: Option<Item>) -> Option<u32> {
    match item {
        Some(i) => Some(i.id),
        None => None,
    }
}

/// First entry that is the given window.
pub open spec fn window_with(items: Seq<Item>, id: u32) -> Option<Item> {
    first_such(items, |i: Item| i.id == id)
}

/// First entry that is not the given window.
pub open spec fn other_window(items: Seq<Item>, id: u32) -> Option<Item> {
    first_such(items, |i: Item| i.id != id)
}

/// First entry of an app.
pub open spec fn window_of_app(items: Seq<Item>, pid: i32) -> Option<Item> {
    first_such(items, |i: Item| i.pid == pid)
}

pub fn find_window(items: &Vec<Item>, id: u32) -> (found: Option<&Item>)
    ensures
        match found {
            Some(item) => window_with(items@, id) == Some(*item) && item.id == id,
            None => window_with(items@, id) is None,
        },
{
    let ghost p = |i: Item| i.id == id;
    let mut i: usize = 0;
    assert(items@.skip(0) =~= items@);
    while i < items.len()
        invariant
            i <= items.len(),
            p == (|i: Item| i.id == id),
            first_such(items@, p) == first_such(items@.skip(i as int), p),
        decreases items.len() - i,
    {
        assert(items@.skip(i as int)[0] == items@[i as int]);
        if items[i].id == id {
            return Some(&items[i]);
        }
        assert(items@.skip(i as int).drop_first() =~= items@.skip(i + 1));
        i += 1;
    }
    None
}

pub fn find_other(items: &Vec<Item>, id: u32) -> (found: Option<u32>)
    ensures
        found == id_of(other_window(items@, id)),
        found != Some(id),
{
    let ghost p = |i: Item| i.id != id;
    let mut i: usize = 0;
    assert(items@.skip(0) =~= items@);
    while i < items.len()
        invariant
            i <= items.len(),
            p == (|i: Item| i.id != id),
            first_such(items@, p) == first_such(items@.skip(i as int), p),
        decreases items.len() - i,
    {
        assert(items@.skip(i as int)[0] == items@[i as int]);
        if items[i].id != id {
            return Some(items[i].id);
        }
        assert(items@.skip(i as int).drop_first() =~= items@.skip(i + 1));
        i += 1;
    }
    None
}

pub fn find_of_app(items: &Vec<Item>, pid: i32) -> (found: Option<u32>)
    ensures
        found == id_of(window_of_app(items@, pid)),
{
    let ghost p = |i: Item| i.pid == pid;
    let mut i: usize = 0;
    assert(items@.skip(0) =~= items@);
    while i < items.len()
        invariant
            i <= items.len(),
            p == (|i: Item| i.pid == pid),
            first_such(items@, p) == first_such(items@.skip(i as int), p),
        decreases items.len() - i,
    {
        assert(items@.skip(i as int)[0] == items@[i as int]);
        if items[i].pid == pid {
            return Some(items[i].id);
        }
        assert(items@.skip(i as int).drop_first() =~= items@.skip(i + 1));
        i += 1;
    }
    None
}

/// The first entry with a property is one, has it, and no entry before it has;
/// there is none only if no entry has it.
pub proof fn lemma_first_such(items: Seq<Item>, p: spec_fn(Item) -> bool)
    ensures
        match first_such(items, p) {
            Some(item) => p(item) && exists|i: int|
                0 <= i < items.len() && #[trigger] items[i] == item && forall|k: int|
                    0 <= k < i ==> !p(#[trigger] items[k]),
            None => forall|k: int| 0 <= k < items.len() ==> !p(#[trigger] items[k]),
        },
    decreases items.len(),
{
    if items.len() > 0 && !p(items[0]) {
        let rest = items.drop_first();
        lemma_first_such(rest, p);
        match first_such(rest, p) {
            Some(item) => {
                let i = choose|i: int|
                    0 <= i < rest.len() && #[trigger] rest[i] == item && forall|k: int|
                        0 <= k < i ==> !p(#[trigger] rest[k]);
                assert(items[i + 1] == item);
                assert forall|k: int| 0 <= k < i + 1 implies !p(#[trigger] items[k]) by {
                    if k > 0 {
                        assert(items[k] == rest[k - 1]);
                    }
                }
            },
            None => {
                assert forall|k: int| 0 <= k < items.len() implies !p(#[trigger] items[k]) by {
                    if k > 0 {
                        assert(items[k] == rest[k - 1]);
                    }
                }
            },
        }
    }
}

// ---------- quick switch target ----------

/// The window a quick tap switches to: the previous window if it is another
/// one and still there, or else the first window that is not the current one.
pub open spec fn target_of(items: Seq<Item>, current: u32, prev: Option<u32>) -> Option<u32> {
    match prev {
        Some(p) if p != current && has_window(items, p) => Some(p),
        _ => id_of(other_window(items, current)),
    }
}

/// Pick the window that a quick tap switches to.
pub fn toggle_target(items: &Vec<Item>, current: u32, prev: Option<u32>) -> (target: Option<u32>)
    ensures
        target == target_of(items@, current, prev),
{
    match prev {
        Some(p) if p != current && present(items, p) => Some(p),
        _ => find_other(items, current),
    }
}

// ---------- order of the entries ----------

pub open spec fn as_seq(id: Option<u32>) -> Seq<u32> {
    match id {
        Some(id) => seq![id],
        None => Seq::empty(),
    }
}

/// Windows in the order in which they come first: the one to select, the
/// active one, then the recent ones.
pub open spec fn priority(mru: Seq<u32>, sel: Option<u32>, active: Option<u32>) -> Seq<u32> {
    as_seq(sel) + as_seq(active) + mru
}

/// Place of a window in a list; windows that are not in it come last.
pub open spec fn rank(order: Seq<u32>, id: u32) -> int {
    match order.index_of_first(id) {
        Some(i) => i,
        None => order.len() as int,
    }
}

/// The entries of rank `r`, in the order in which they stand.
pub open spec fn of_rank(items: Seq<Item>, order: Seq<u32>, r: int) -> Seq<Item> {
    items.filter(|i: Item| rank(order, i.id) == r)
}

pub open spec fn ranks_ascend(items: Seq<Item>, order: Seq<u32>) -> bool {
    forall|a: int, b: int|
        0 <= a <= b < items.len() ==> rank(order, #[trigger] items[a].id) <= rank(
            order,
            #[trigger] items[b].id,
        )
}

/// `after` holds the entries of `before` by rank, and those of the same rank in
/// the order they had.
pub open spec fn ordered_by(before: Seq<Item>, after: Seq<Item>, order: Seq<u32>) -> bool {
    &&& ranks_ascend(after, order)
    &&& forall|r: int| #[trigger] of_rank(after, order, r) == of_rank(before, order, r)
}

fn rank_of(order: &Vec<u32>, id: u32) -> (r: usize)
    ensures
        r == rank(order@, id),
{
    proof {
        order@.index_of_first_ensures(id);
    }
    let mut i: usize = 0;
    while i < order.len()
        invariant
            i <= order.len(),
            forall|k: int| 0 <= k < i ==> order@[k] != id,
            order@.index_of_first(id) matches Some(p) ==> 0 <= p < order@.len() && order@[p] == id
                && forall|k: int| 0 <= k < p ==> order@[k] != id,
            order@.index_of_first(id) is None ==> !order@.contains(id),
        decreases order.len() - i,
    {
        if order[i] == id {
            assert(order@.contains(id));
            return i;
        }
        i += 1;
    }
    i
}

/// Putting an entry behind all of its rank and before all of a higher one adds
/// it at the end of its rank.
proof fn lemma_insert_in_rank(items: Seq<Item>, order: Seq<u32>, at: int, x: Item, r: int)
    requires
        0 <= at <= items.len(),
        forall|k: int|
            at <= k < items.len() ==> rank(order, #[trigger] items[k].id) > rank(order, x.id),
    ensures
        of_rank(items.insert(at, x), order, r) == of_rank(items.push(x), order, r),
{
    let p = |i: Item| rank(order, i.id) == r;
    let head = items.take(at);
    let rest = items.skip(at);
    let one = seq![x];
    assert(items.insert(at, x) =~= head + one + rest);
    assert(items.push(x) =~= head + rest + one);
    Seq::filter_distributes_over_add(head + one, rest, p);
    Seq::filter_distributes_over_add(head, one, p);
    Seq::filter_distributes_over_add(head + rest, one, p);
    Seq::filter_distributes_over_add(head, rest, p);
    if rank(order, x.id) == r {
        assert(forall|k: int| 0 <= k < rest.len() ==> !p(#[trigger] rest[k]));
        rest.lemma_all_neg_filter_empty(p);
        assert(rest.filter(p) =~= Seq::empty());
    } else {
        assert(forall|k: int| 0 <= k < one.len() ==> !p(#[trigger] one[k]));
        one.lemma_all_neg_filter_empty(p);
        assert(one.filter(p) =~= Seq::empty());
    }
}

/// Bring the entries into the order: the window to select, the active window,
/// the recent windows, then all others as they came.
pub fn order_items(
    items: &mut Vec<Item>,
    mru: &VecDeque<u32>,
    sel: Option<u32>,
    active: Option<u32>,
)
    ensures
        ordered_by(old(items)@, final(items)@, priority(mru@, sel, active)),
        final(items)@.len() == old(items)@.len(),
{
    let mut order: Vec<u32> = Vec::new();
    if let Some(s) = sel {
        order.push(s);
    }
    if let Some(a) = active {
        order.push(a);
    }
    assert(order@ =~= as_seq(sel) + as_seq(active));
    let mut m: usize = 0;
    while m < mru.len()
        invariant
            m <= mru@.len(),
            order@ == as_seq(sel) + as_seq(active) + mru@.take(m as int),
        decreases mru.len() - m,
    {
        order.push(mru[m]);
        m += 1;
    }
    assert(mru@.take(m as int) =~= mru@);
    let ghost order_seq = priority(mru@, sel, active);
    assert(order@ =~= order_seq);
    let ghost all = items@;
    let n: usize = items.len();
    let mut i: usize = 0;
    while i < n
        invariant
            i <= n,
            n == items@.len(),
            n == all.len(),
            order@ == order_seq,
            ranks_ascend(items@.take(i as int), order_seq),
            forall|r: int| #[trigger]
                of_rank(items@.take(i as int), order_seq, r) == of_rank(
                    all.take(i as int),
                    order_seq,
                    r,
                ),
            items@.skip(i as int) == all.skip(i as int),
        decreases n - i,
    {
        let r: usize = rank_of(&order, items[i].id);
        let ghost before = items@;
        let ghost head = before.take(i as int);
        let ghost x = before[i as int];
        assert(x == before.skip(i as int)[0]);
        assert(x == all.skip(i as int)[0]);
        let mut at: usize = i;
        while at > 0 && rank_of(&order, items[at - 1].id) > r
            invariant
                at <= i < n,
                n == items@.len(),
                items@ == before,
                order@ == order_seq,
                r == rank(order_seq, x.id),
                forall|k: int|
                    at <= k < i ==> rank(order_seq, #[trigger] before[k].id) > rank(
                        order_seq,
                        x.id,
                    ),
            decreases at,
        {
            at -= 1;
        }
        let item = items.remove(i);
        items.insert(at, item);
        proof {
            let now = items@;
            assert(now.take(i + 1) =~= head.insert(at as int, x));
            assert(now.skip(i + 1) =~= before.skip(i + 1));
            assert(before.skip(i + 1) =~= before.skip(i as int).drop_first());
            assert(all.skip(i + 1) =~= all.skip(i as int).drop_first());
            assert(all.take(i + 1) =~= all.take(i as int).push(x));
            let done = head.insert(at as int, x);
            assert(ranks_ascend(done, order_seq)) by {
                assert forall|a: int, b: int| 0 <= a <= b < done.len() implies rank(
                    order_seq,
                    #[trigger] done[a].id,
                ) <= rank(order_seq, #[trigger] done[b].id) by {
                    if a < at {
                        assert(done[a] == head[a]);
                    } else if a > at {
                        assert(done[a] == head[a - 1]);
                    }
                    if b < at {
                        assert(done[b] == head[b]);
                    } else if b > at {
                        assert(done[b] == head[b - 1]);
                    }
                    if at > 0 {
                        assert(rank(order_seq, head[at - 1].id) <= r);
                        if a < at {
                            assert(rank(order_seq, head[a].id) <= rank(
                                order_seq,
                                head[at - 1].id,
                            ));
                        }
                    }
                }
            }
            assert forall|q: int| #[trigger]
                of_rank(now.take(i + 1), order_seq, q) == of_rank(
                    all.take(i + 1),
                    order_seq,
                    q,
                ) by {
                lemma_insert_in_rank(head, order_seq, at as int, x, q);
                assert(of_rank(head, order_seq, q) == of_rank(all.take(i as int), order_seq, q));
                let p = |i: Item| rank(order_seq, i.id) == q;
                Seq::filter_distributes_over_add(head, seq![x], p);
                Seq::filter_distributes_over_add(all.take(i as int), seq![x], p);
                assert(head.push(x) =~= head + seq![x]);
                assert(all.take(i as int).push(x) =~= all.take(i as int) + seq![x]);
            }
        }
        i += 1;
    }
    assert(items@.take(i as int) =~= items@);
    assert(all.take(i as int) =~= all);
}

} // verus!
