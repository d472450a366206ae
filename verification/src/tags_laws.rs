//! Laws of the quick-entry tags.

use crate::render;
use crate::state;
use crate::tags;
use crate::util;
use vstd::prelude::*;

verus! {

/// There is always a first slot with a property, or none has it.
proof fn lemma_first_slot_exists(
    slots: Seq<Option<u32>>,
    p: spec_fn(Option<u32>) -> bool,
    n: usize,
)
    requires
        n == slots.len(),
    ensures
        tags::is_first_slot(slots, p, tags::first_slot(slots, p)),
{
    lemma_search(slots, p, n);
}

proof fn lemma_search(slots: Seq<Option<u32>>, p: spec_fn(Option<u32>) -> bool, n: usize)
    requires
        n <= slots.len(),
    ensures
        exists|s: Option<usize>| #[trigger] tags::is_first_slot(slots.take(n as int), p, s),
        n == slots.len() ==> exists|s: Option<usize>| #[trigger] tags::is_first_slot(slots, p, s),
    decreases n,
{
    let head = slots.take(n as int);
    if n == 0 {
        assert(tags::is_first_slot(head, p, None));
    } else {
        let m = (n - 1) as usize;
        lemma_search(slots, p, m);
        let before = slots.take(m as int);
        let s = choose|s: Option<usize>| #[trigger] tags::is_first_slot(before, p, s);
        match s {
            Some(i) => {
                assert(before[i as int] == head[i as int]);
                assert forall|k: int| 0 <= k < i implies !p(#[trigger] head[k]) by {
                    assert(before[k] == head[k]);
                }
                assert(tags::is_first_slot(head, p, Some(i)));
            },
            None => {
                assert forall|k: int| 0 <= k < m implies !p(#[trigger] head[k]) by {
                    assert(before[k] == head[k]);
                }
                if p(head[m as int]) {
                    assert(tags::is_first_slot(head, p, Some(m)));
                } else {
                    assert(tags::is_first_slot(head, p, None));
                }
            },
        }
    }
    if n == slots.len() {
        assert(head =~= slots);
    }
}

/// Toggling a tag changes at most one slot: the other tags never move up to
/// fill a gap.
pub proof fn law_other_tags_stay(slots: Seq<Option<u32>>, id: u32, alive: Set<u32>)
    requires
        slots.len() == state::MAX_TAGS,
    ensures
        tags::toggled(slots, id, alive).0.len() == slots.len(),
        forall|i: int, j: int|
            0 <= i < j < slots.len() ==> tags::toggled(slots, id, alive).0[i] == #[trigger] slots[i]
                || tags::toggled(slots, id, alive).0[j] == #[trigger] slots[j],
{
    lemma_first_slot_exists(slots, |t: Option<u32>| t == Some(id), 3);
    lemma_first_slot_exists(slots, |t: Option<u32>| tags::open_slot(t, alive), 3);
}

/// A new tag takes the lowest slot that is empty or whose window is gone, and
/// its number leads to the window.
pub proof fn law_new_tag_takes_the_lowest_slot(slots: Seq<Option<u32>>, id: u32, alive: Set<u32>)
    requires
        slots.len() == state::MAX_TAGS,
        forall|k: int| 0 <= k < slots.len() ==> #[trigger] slots[k] != Some(id),
        exists|k: int| 0 <= k < slots.len() && tags::open_slot(#[trigger] slots[k], alive),
    ensures
        exists|s: usize|
            s < slots.len() && #[trigger] tags::tagged_window(
                tags::toggled(slots, id, alive).0,
                (s + 1) as usize,
            ) == Some(id) && tags::open_slot(slots[s as int], alive) && forall|k: int|
                0 <= k < s ==> !tags::open_slot(#[trigger] slots[k], alive),
{
    let has_id = |t: Option<u32>| t == Some(id);
    let is_open = |t: Option<u32>| tags::open_slot(t, alive);
    lemma_first_slot_exists(slots, has_id, 3);
    lemma_first_slot_exists(slots, is_open, 3);
    let s = tags::first_slot(slots, is_open);
    let k = choose|k: int| 0 <= k < slots.len() && tags::open_slot(#[trigger] slots[k], alive);
    assert(is_open(slots[k]));
    assert(s is Some);
    assert(tags::tagged_window(tags::toggled(slots, id, alive).0, (s->0 + 1) as usize) == Some(id));
    assert forall|k: int| 0 <= k < s->0 implies !tags::open_slot(#[trigger] slots[k], alive) by {
        assert(!is_open(slots[k]));
    }
}

/// With every slot taken by a live window no tag is added.
pub proof fn law_full_tags_refuse(slots: Seq<Option<u32>>, id: u32, alive: Set<u32>)
    requires
        slots.len() == state::MAX_TAGS,
        forall|k: int| 0 <= k < slots.len() ==> #[trigger] slots[k] != Some(id),
        forall|k: int| 0 <= k < slots.len() ==> !tags::open_slot(#[trigger] slots[k], alive),
    ensures
        tags::toggled(slots, id, alive) == (slots, tags::full_text()),
{
    lemma_first_slot_exists(slots, |t: Option<u32>| t == Some(id), 3);
    lemma_first_slot_exists(slots, |t: Option<u32>| tags::open_slot(t, alive), 3);
}

/// Toggling the tag of an untagged window twice gives back the tags, if the
/// slot that it took was empty.
pub proof fn law_toggling_twice_restores(slots: Seq<Option<u32>>, id: u32, alive: Set<u32>)
    requires
        slots.len() == state::MAX_TAGS,
        forall|k: int| 0 <= k < slots.len() ==> #[trigger] slots[k] != Some(id),
        tags::first_slot(slots, |t: Option<u32>| tags::open_slot(t, alive)) matches Some(s)
            && slots[s as int] is None,
    ensures
        tags::toggled(tags::toggled(slots, id, alive).0, id, alive).0 == slots,
{
    let has_id = |t: Option<u32>| t == Some(id);
    let is_open = |t: Option<u32>| tags::open_slot(t, alive);
    lemma_first_slot_exists(slots, has_id, 3);
    lemma_first_slot_exists(slots, is_open, 3);
    let s = tags::first_slot(slots, is_open)->0;
    let once = tags::toggled(slots, id, alive).0;
    assert(once == slots.update(s as int, Some(id)));
    lemma_first_slot_exists(once, has_id, 3);
    assert(once[s as int] == Some(id));
    let f = tags::first_slot(once, has_id);
    match f {
        Some(f) => {
            assert(has_id(once[f as int]));
            assert(f == s);
        },
        None => {
            assert(!has_id(once[s as int]));
        },
    }
    assert(once.update(s as int, None) =~= slots);
}

/// A window never gets two tags.
pub proof fn law_tags_stay_distinct(slots: Seq<Option<u32>>, id: u32, alive: Set<u32>)
    requires
        slots.len() == state::MAX_TAGS,
        state::tags_distinct(slots),
    ensures
        state::tags_distinct(tags::toggled(slots, id, alive).0),
{
    let has_id = |t: Option<u32>| t == Some(id);
    let is_open = |t: Option<u32>| tags::open_slot(t, alive);
    lemma_first_slot_exists(slots, has_id, 3);
    lemma_first_slot_exists(slots, is_open, 3);
    if tags::first_slot(slots, has_id) is None {
        assert forall|k: int| 0 <= k < slots.len() implies #[trigger] slots[k] != Some(id) by {
            assert(!has_id(slots[k]));
        }
    }
}

// ---------- tags, slot by slot ----------

/// Toggling a tagged window empties its slot and leaves the others alone; the
/// hint names the slot, counted from one.
pub proof fn law_tagged_window_loses_its_tag(
    slots: Seq<Option<u32>>,
    id: u32,
    alive: Set<u32>,
    i: int,
)
    requires
        slots.len() == 3,
        0 <= i < 3,
        slots[i] == Some(id),
        forall|k: int| 0 <= k < 3 && k != i ==> #[trigger] slots[k] != Some(id),
    ensures
        tags::toggled(slots, id, alive).0 == slots.update(i, None),
        tags::toggled(slots, id, alive).1 == "已移除标签 "@ + util::decimal_digits(i + 1),
{
    let has_id = |t: Option<u32>| t == Some(id);
    lemma_first_slot_exists(slots, has_id, 3);
    let s = tags::first_slot(slots, has_id);
    match s {
        Some(k) => {
            assert(has_id(slots[k as int]));
        },
        None => {
            assert(!has_id(slots[i]));
        },
    }
}

/// Toggling an untagged window gives it the lowest slot that is empty or whose
/// window does not exist any more, and leaves the others alone; the hint names
/// the slot.
pub proof fn law_untagged_window_gets_the_lowest_free_slot(
    slots: Seq<Option<u32>>,
    id: u32,
    alive: Set<u32>,
    i: int,
)
    requires
        slots.len() == 3,
        0 <= i < 3,
        forall|k: int| 0 <= k < 3 ==> #[trigger] slots[k] != Some(id),
        slots[i] is None || !alive.contains(slots[i]->0),
        forall|k: int|
            0 <= k < i ==> (#[trigger] slots[k]) is Some && alive.contains(slots[k]->0),
    ensures
        tags::toggled(slots, id, alive).0 == slots.update(i, Some(id)),
        tags::toggled(slots, id, alive).1 == "已添加标签 "@ + util::decimal_digits(i + 1) + "（⌘⇧"@
            + util::decimal_digits(i + 1) + " 快速切换）"@,
{
    let has_id = |t: Option<u32>| t == Some(id);
    let is_open = |t: Option<u32>| tags::open_slot(t, alive);
    lemma_first_slot_exists(slots, has_id, 3);
    if let Some(k) = tags::first_slot(slots, has_id) {
        assert(has_id(slots[k as int]));
    }
    assert(is_open(slots[i]));
    assert forall|k: int| 0 <= k < i implies !is_open(#[trigger] slots[k]) by {}
    tags::lemma_first_slot(slots, is_open, Some(i as usize));
}

/// With all three slots taken by windows that exist, toggling an untagged window
/// changes nothing, and the hint says so.
pub proof fn law_no_more_than_three_tags(slots: Seq<Option<u32>>, id: u32, alive: Set<u32>)
    requires
        slots.len() == 3,
        forall|k: int|
            0 <= k < 3 ==> (#[trigger] slots[k]) is Some && slots[k] != Some(id)
                && alive.contains(slots[k]->0),
    ensures
        tags::toggled(slots, id, alive).0 == slots,
        tags::toggled(slots, id, alive).1 == "标签已达上限（最多 3 个）"@,
{
    law_full_tags_refuse(slots, id, alive);
}

/// A tag number leads to the window in that slot, counted from one.
pub proof fn law_tag_number_leads_to_its_window(slots: Seq<Option<u32>>, n: usize)
    requires
        slots.len() == 3,
    ensures
        n == 1 ==> tags::tagged_window(slots, n) == slots[0],
        n == 2 ==> tags::tagged_window(slots, n) == slots[1],
        n == 3 ==> tags::tagged_window(slots, n) == slots[2],
        n == 0 || n > 3 ==> tags::tagged_window(slots, n) is None,
{
}

/// The number on a window's badge is the one that switches to the window.
pub proof fn law_badge_number_switches_to_its_window(slots: Seq<Option<u32>>, id: u32)
    requires
        slots.len() == 3,
    ensures
        match render::tag_of_window(slots, id) {
            Some(n) => 1 <= n <= 3 && tags::tagged_window(slots, n) == Some(id),
            None => forall|k: int| 0 <= k < 3 ==> #[trigger] slots[k] != Some(id),
        },
{
    let has_id = |t: Option<u32>| t == Some(id);
    lemma_first_slot_exists(slots, has_id, 3);
    match tags::first_slot(slots, has_id) {
        Some(k) => {
            assert(has_id(slots[k as int]));
        },
        None => {
            assert forall|k: int| 0 <= k < 3 implies #[trigger] slots[k] != Some(id) by {
                assert(!has_id(slots[k]));
            }
        },
    }
}

/// What the hints about a tag say names its number.
pub proof fn law_tag_hints_name_the_number(n: int)
    ensures
        tags::unset_text(n) == "标签 "@ + util::decimal_digits(n) + " 未设置（⌘⇧"@
            + util::decimal_digits(n) + "）"@,
        tags::elsewhere_text(n) == "标签 "@ + util::decimal_digits(n) + "：窗口不在当前桌面"@,
        tags::closed_text(n) == "标签 "@ + util::decimal_digits(n)
            + "：窗口已关闭，已清除该标签"@,
{
}

} // verus!
