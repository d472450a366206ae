//! Quick-entry tags: adding and removing them, and switching to a tagged
//! window.

use crate::capture;
use crate::overlay;
use crate::overlay::{AppInner, Hint, Step, Switch, HINT_MS};
use crate::recency;
use crate::recency::find_window;
use crate::state;
use crate::state::{clock_after, free_tag_slot, Core, Item, MAX_TAGS};
use crate::util;
use std::collections::HashSet;
use vstd::prelude::*;
use vstd::string::StringExecFns;

verus! {

// ---------- slots ----------

pub open spec fn is_first_slot(
    tags: Seq<Option<u32>>,
    p: spec_fn(Option<u32>) -> bool,
    slot: Option<usize>,
) -> bool {
    match slot {
        Some(i) => {
            &&& i < tags.len()
            &&& p(tags[i as int])
            &&& forall|k: int| 0 <= k < i ==> !p(#[trigger] tags[k])
        },
        None => forall|k: int| 0 <= k < tags.len() ==> !p(#[trigger] tags[k]),
    }
}

/// First slot with the given property.
pub open spec fn first_slot(
    tags: Seq<Option<u32>>,
    p: spec_fn(Option<u32>) -> bool,
) -> Option<usize> {
    choose|slot: Option<usize>| is_first_slot(tags, p, slot)
}

pub proof fn lemma_first_slot(
    tags: Seq<Option<u32>>,
    p: spec_fn(Option<u32>) -> bool,
    slot: Option<usize>,
)
    requires
        is_first_slot(tags, p, slot),
    ensures
        first_slot(tags, p) == slot,
{
    let other = first_slot(tags, p);
    assert(is_first_slot(tags, p, other));
    match (slot, other) {
        (Some(a), Some(b)) => {
            if a < b {
                assert(p(tags[a as int]));
            } else if b < a {
                assert(p(tags[b as int]));
            }
        },
        (Some(a), None) => {
            assert(p(tags[a as int]));
        },
        (None, Some(b)) => {
            assert(p(tags[b as int]));
        },
        (None, None) => {},
    }
}

/// The slot can take a new tag: it is empty or its window is gone.
pub open spec fn open_slot(tag: Option<u32>, alive: Set<u32>) -> bool {
    match tag {
        None => true,
        Some(id) => !alive.contains(id),
    }
}

// ---------- texts ----------

pub open spec fn numbered(head: Seq<char>, n: int, tail: Seq<char>) -> Seq<char> {
    head + util::decimal_digits(n) + tail
}

fn numbered_text(head: &str, n: usize, tail: &str) -> (t: String)
    ensures
        t@ == numbered(head@, n as int, tail@),
{
    let number = util::decimal(n as u64);
    head.to_owned().concat(&number).concat(tail)
}

pub open spec fn removed_text(n: int) -> Seq<char> {
    "已移除标签 "@ + util::decimal_digits(n)
}

pub open spec fn added_text(n: int) -> Seq<char> {
    numbered("已添加标签 "@, n, "（⌘⇧"@) + util::decimal_digits(n) + " 快速切换）"@
}

pub open spec fn full_text() -> Seq<char> {
    "标签已达上限（最多 3 个）"@
}

pub open spec fn unset_text(n: int) -> Seq<char> {
    numbered("标签 "@, n, " 未设置（⌘⇧"@) + util::decimal_digits(n) + "）"@
}

pub open spec fn elsewhere_text(n: int) -> Seq<char> {
    numbered("标签 "@, n, "：窗口不在当前桌面"@)
}

pub open spec fn closed_text(n: int) -> Seq<char> {
    numbered("标签 "@, n, "：窗口已关闭，已清除该标签"@)
}

/// `after` differs from `before` only in a hint with the given text, which
/// ends some time after `now`.
pub open spec fn hints(before: AppInner, after: AppInner, text: Seq<char>, now: u64) -> bool {
    &&& after.hint matches Some(h) && h.text@ == text && h.until == state::later(now, HINT_MS)
    &&& after == (AppInner { hint: after.hint, ..before })
}

// ---------- toggling ----------

/// The tags and the hint after the tag of window `id` was toggled: a tagged
/// window loses its tag; another one gets the lowest slot that is empty or
/// whose window is gone, if there is one. No tag moves to another slot.
pub open spec fn toggled(tags: Seq<Option<u32>>, id: u32, alive: Set<u32>) -> (
    Seq<Option<u32>>,
    Seq<char>,
) {
    match first_slot(tags, |t: Option<u32>| t == Some(id)) {
        Some(s) => (tags.update(s as int, None), removed_text(s + 1)),
        None => match first_slot(tags, |t: Option<u32>| open_slot(t, alive)) {
            Some(s) => (tags.update(s as int, Some(id)), added_text(s + 1)),
            None => (tags, full_text()),
        },
    }
}

/// The window of a tag number, if the tag is set.
pub open spec fn tagged_window(tags: Seq<Option<u32>>, n: usize) -> Option<u32> {
    if 1 <= n <= tags.len() {
        tags[n - 1]
    } else {
        None
    }
}

impl AppInner {
    /// Show a hint for a moment.
    pub fn set_hint(&mut self, text: String, now: u64)
        ensures
            *final(self) == (AppInner {
                hint: Some(Hint { text, until: state::later(now, HINT_MS) }),
                ..*old(self)
            }),
    {
        self.hint = Some(Hint { text, until: clock_after(now, HINT_MS) });
    }

    /// Add the tag of a window, or remove it if the window has one. `alive`
    /// holds all windows that exist.
    pub fn toggle_tag(&mut self, core: &mut Core, window_id: u32, alive: &HashSet<u32>, now: u64)
        ensures
            ({
                let result = toggled(old(core).tags@, window_id, alive@);
                &&& final(core).tags@ == result.0
                &&& hints(*old(self), *final(self), result.1, now)
            }),
            *final(core) == (Core { tags: final(core).tags, ..*old(core) }),
            old(core).wf() ==> final(core).wf(),
    {
        broadcast use vstd::std_specs::hash::group_hash_axioms;

        let ghost tags = core.tags@;
        let ghost has_id = |t: Option<u32>| t == Some(window_id);
        let ghost is_open = |t: Option<u32>| open_slot(t, alive@);
        if let Some(n) = core.tag_of(window_id) {
            proof {
                lemma_first_slot(tags, has_id, Some((n - 1) as usize));
            }
            core.tags[n - 1] = None;
            let text = "已移除标签 ".to_owned().concat(&util::decimal(n as u64));
            self.set_hint(text, now);
            return ;
        }
        proof {
            lemma_first_slot(tags, has_id, None);
        }
        let lives = |w: u32| -> (yes: bool)
            ensures
                yes == alive@.contains(w),
            { alive.contains(&w) };
        match free_tag_slot(&core.tags, lives) {
            Some(slot) => {
                proof {
                    lemma_first_slot(tags, is_open, Some(slot));
                }
                core.tags[slot] = Some(window_id);
                let n: usize = slot + 1;
                let text = numbered_text("已添加标签 ", n, "（⌘⇧").concat(
                    &util::decimal(n as u64),
                ).concat(" 快速切换）");
                self.set_hint(text, now);
            },
            None => {
                proof {
                    lemma_first_slot(tags, is_open, None);
                }
                self.set_hint("标签已达上限（最多 3 个）".to_owned(), now);
            },
        }
    }

    // ---------- switching ----------

    /// Switch to the window with tag number `n`: the window has to be looked
    /// for, unless the tag is not set.
    pub fn activate_tag(&mut self, core: &Core, n: usize, now: u64) -> (step: Step)
        requires
            n >= 1,
        ensures
            match tagged_window(core.tags@, n) {
                Some(id) => step == Step::FindTag(n, id) && *final(self) == *old(self),
                None => step is Redraw && hints(
                    *old(self),
                    *final(self),
                    unset_text(n as int),
                    now,
                ),
            },
    {
        let id = if n <= MAX_TAGS {
            core.tags[n - 1]
        } else {
            None
        };
        match id {
            Some(id) => Step::FindTag(n, id),
            None => {
                let text = numbered_text("标签 ", n, " 未设置（⌘⇧").concat(
                    &util::decimal(n as u64),
                ).concat("）");
                self.set_hint(text, now);
                Step::Redraw
            },
        }
    }

    /// Switch to a tagged window if it is among the windows on screen.
    pub fn switch_to_tag(&mut self, core: &mut Core, id: u32, items: &Vec<Item>, now: u64) -> (switch:
        Option<Switch>)
        ensures
            match recency::window_with(items@, id) {
                Some(item) => {
                    &&& switch == Some(
                        Switch {
                            item,
                            gen: capture::next_gen(old(self).activation_gen),
                            hidden: overlay::hidden_for_switch(*old(self), old(core).visible),
                        },
                    )
                    &&& *final(self) == overlay::app_switched(*old(self), old(core).visible, now)
                    &&& overlay::switched(
                        *old(core),
                        *final(core),
                        old(core).mode,
                        recency::touched(old(core).mru@, id),
                        id,
                        overlay::prev_after_switch(old(core).active, old(core).prev, id),
                    )
                },
                None => switch is None && *final(self) == *old(self) && *final(core) == *old(core),
            },
            old(core).wf() ==> final(core).wf(),
    {
        match find_window(items, id) {
            Some(item) => Some(self.activate_item(core, item.clone(), now)),
            None => None,
        }
    }

    /// The window of tag number `n` is not on screen. If it does not exist any
    /// more, its tag is removed.
    pub fn tag_not_found(&mut self, core: &mut Core, n: usize, id: u32, alive: bool, now: u64)
        requires
            n >= 1,
        ensures
            final(core).tags@ == (if !alive && tagged_window(old(core).tags@, n) == Some(id) {
                old(core).tags@.update(n - 1, None)
            } else {
                old(core).tags@
            }),
            *final(core) == (Core { tags: final(core).tags, ..*old(core) }),
            hints(
                *old(self),
                *final(self),
                if alive {
                    elsewhere_text(n as int)
                } else {
                    closed_text(n as int)
                },
                now,
            ),
            old(core).wf() ==> final(core).wf(),
    {
        if !alive && n <= MAX_TAGS && core.tags[n - 1] == Some(id) {
            core.tags[n - 1] = None;
        }
        let text = if alive {
            numbered_text("标签 ", n, "：窗口不在当前桌面")
        } else {
            numbered_text("标签 ", n, "：窗口已关闭，已清除该标签")
        };
        self.set_hint(text, now);
    }
}

} // verus!
