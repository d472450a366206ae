//! Shared state of the switcher, and the commands to its main thread.
//!
//! Times are readings of one monotonic clock in nanoseconds.

use crate::config;
use crate::keys;
use crate::layout::{Dir, Layout, MAX_ITEMS};
use std::collections::VecDeque;
use vstd::prelude::*;

verus! {

#[derive(Clone, Copy, PartialEq, Eq, Debug, Structural)]
pub enum Mode {
    /// Every active window on the current desktop, one entry per window.
    Space,
    /// The frontmost app's windows on the current desktop.
    App,
}

/// One entry of the switcher: a window that can be switched to. Bounds are in
/// milli-points.
#[derive(Debug)]
pub struct Item {
    pub id: u32,
    pub pid: i32,
    pub owner: String,
    pub title: String,
    /// Width over height in millionths, clamped to a sane range for layout.
    pub aspect: u32,
    pub x: i32,
    pub y: i32,
    pub w: i32,
    pub h: i32,
    /// Number of windows of the same app on all displays. With `1` no
    /// particular window has to be raised when switching.
    pub n_same_pid: usize,
}

impl Clone for Item {
    fn clone(&self) -> (copy: Self)
        ensures
            copy == *self,
    {
        Item {
            id: self.id,
            pid: self.pid,
            owner: self.owner.clone(),
            title: self.title.clone(),
            aspect: self.aspect,
            x: self.x,
            y: self.y,
            w: self.w,
            h: self.h,
            n_same_pid: self.n_same_pid,
        }
    }
}

#[derive(Clone, Copy, Debug, PartialEq, Eq, Structural)]
pub struct Hotkey {
    /// Required modifiers.
    pub mods: u64,
    /// Virtual key code.
    pub keycode: u16,
}

/// The desktop switcher's hotkey (command-tab). Both hotkeys deliberately
/// override the system's shortcuts.
pub fn hotkey_space() -> (key: Hotkey)
    ensures
        key == (Hotkey { mods: keys::FLAG_COMMAND, keycode: keys::KEY_TAB }),
{
    Hotkey { mods: keys::FLAG_COMMAND, keycode: keys::KEY_TAB }
}

/// The app switcher's hotkey (command-grave).
pub fn hotkey_app() -> (key: Hotkey)
    ensures
        key == (Hotkey { mods: keys::FLAG_COMMAND, keycode: keys::KEY_GRAVE }),
{
    Hotkey { mods: keys::FLAG_COMMAND, keycode: keys::KEY_GRAVE }
}

/// Number of quick-entry tags.
pub const MAX_TAGS: usize = 3;

/// Longest time between the two presses of `p` that toggle a tag.
pub const DOUBLE_P_MS: u64 = 400;

// ---------- time ----------

/// Time from `since` until `now`, zero when `since` is still to come.
pub open spec fn elapsed(now: u64, since: u64) -> int {
    if now >= since {
        now - since
    } else {
        0
    }
}

/// `now` plus some milliseconds, on a clock that stops at its end.
pub open spec fn later(now: u64, ms: u64) -> u64 {
    if now + ms * 1_000_000 <= u64::MAX {
        (now + ms * 1_000_000) as u64
    } else {
        u64::MAX
    }
}

/// At least `ms` milliseconds have passed since `since`.
pub fn has_elapsed(now: u64, since: u64, ms: u64) -> (yes: bool)
    ensures
        yes == (elapsed(now, since) >= ms * 1_000_000),
{
    now.saturating_sub(since) as u128 >= ms as u128 * 1_000_000
}

pub fn clock_after(now: u64, ms: u64) -> (t: u64)
    ensures
        t == later(now, ms),
{
    let t: u128 = now as u128 + ms as u128 * 1_000_000;
    if t <= u64::MAX as u128 {
        t as u64
    } else {
        u64::MAX
    }
}

// ---------- tags ----------

/// A slot with this tag can take a new one: it is empty, or `alive` says that
/// its window is gone.
pub open spec fn slot_free<F: Fn(u32) -> bool>(tag: Option<u32>, alive: F) -> bool {
    match tag {
        None => true,
        Some(id) => call_ensures(alive, (id,), false),
    }
}

/// A slot with this tag is taken by a window that `alive` knows.
pub open spec fn slot_taken<F: Fn(u32) -> bool>(tag: Option<u32>, alive: F) -> bool {
    match tag {
        None => false,
        Some(id) => call_ensures(alive, (id,), true),
    }
}

/// Lowest free tag slot (counted from zero): a slot is free when it is empty
/// or when its window is no longer alive. `None` when every slot is taken by a
/// live window. Slots are never compacted.
pub fn free_tag_slot<F: Fn(u32) -> bool>(tags: &[Option<u32>; MAX_TAGS], alive: F) -> (slot: Option<
    usize,
>)
    requires
        forall|id: u32| call_requires(alive, (id,)),
    ensures
        match slot {
            Some(i) => {
                &&& i < MAX_TAGS
                &&& slot_free(tags@[i as int], alive)
                &&& forall|k: int| 0 <= k < i ==> slot_taken(#[trigger] tags@[k], alive)
            },
            None => forall|k: int| 0 <= k < MAX_TAGS ==> slot_taken(#[trigger] tags@[k], alive),
        },
{
    let mut i: usize = 0;
    while i < MAX_TAGS
        invariant
            0 <= i <= MAX_TAGS,
            forall|id: u32| call_requires(alive, (id,)),
            forall|k: int| 0 <= k < i ==> slot_taken(#[trigger] tags@[k], alive),
        decreases MAX_TAGS - i,
    {
        match tags[i] {
            None => {
                return Some(i);
            },
            Some(id) => {
                if !alive(id) {
                    return Some(i);
                }
            },
        }
        i += 1;
    }
    None
}

// ---------- core ----------

/// The state shared by the event tap, the capture threads and the main thread.
#[derive(Debug)]
pub struct Core {
    pub visible: bool,
    pub mode: Mode,
    pub selection: usize,
    pub hover: Option<usize>,
    pub items: Vec<Item>,
    pub layout: Option<Layout>,
    /// Most recently used windows of the current mode, latest first.
    pub mru: VecDeque<u32>,
    pub mru_space: VecDeque<u32>,
    pub mru_app: VecDeque<u32>,
    /// The active window.
    pub active: Option<u32>,
    /// The window that was active before.
    pub prev: Option<u32>,
    /// A hotkey was pressed and it is not decided yet whether it was a tap.
    pub quick_pending: bool,
    /// The overlay is loading: its show has been dispatched.
    pub quick_show_dispatched: bool,
    pub quick_deadline: u64,
    pub quick_mode: Mode,
    /// Quick-tap judgment delay in milliseconds.
    pub quick_delay_ms: u64,
    /// The hotkeys' modifier is held.
    pub cmd_held: bool,
    /// Window of each quick-entry tag. Slots are never compacted.
    pub tags: [Option<u32>; MAX_TAGS],
    /// Windows whose thumbnails are kept.
    pub tracked_ids: Vec<u32>,
    /// Capture missing thumbnails now.
    pub refresh_all: bool,
    pub wrap: bool,
    /// Thumbnail capture interval in milliseconds.
    pub capture_interval_ms: u64,
}

/// No window has two tags.
pub open spec fn tags_distinct(tags: Seq<Option<u32>>) -> bool {
    forall|i: int, j: int|
        0 <= i < j < tags.len() && #[trigger] tags[i] is Some ==> tags[i] != #[trigger] tags[j]
}

/// Tag number of a window, counted from one.
pub open spec fn tag_number(tags: Seq<Option<u32>>, id: u32, n: Option<usize>) -> bool {
    match n {
        Some(n) => {
            &&& 1 <= n <= tags.len()
            &&& tags[n - 1] == Some(id)
            &&& forall|k: int| 0 <= k < n - 1 ==> #[trigger] tags[k] != Some(id)
        },
        None => forall|k: int| 0 <= k < tags.len() ==> #[trigger] tags[k] != Some(id),
    }
}

impl Core {
    /// The selection is an entry (or zero when there is none), the layout is
    /// one of the current entries, and no list of recent windows and no tag
    /// names a window twice.
    pub open spec fn wf(self) -> bool {
        &&& self.selection < self.items@.len() || self.selection == 0
        &&& self.items@.len() <= MAX_ITEMS
        &&& self.layout matches Some(l) ==> l.wf() && l.rects@.len() == self.items@.len()
        &&& self.mru@.no_duplicates()
        &&& self.mru_space@.no_duplicates()
        &&& self.mru_app@.no_duplicates()
        &&& tags_distinct(self.tags@)
    }

    /// The settings are ones that the panel can make.
    pub open spec fn settings_valid(self) -> bool {
        config::valid_settings(self.capture_interval_ms, self.quick_delay_ms)
    }

    /// A hidden switcher at time `now`.
    pub fn new(wrap: bool, now: u64) -> (core: Self)
        ensures
            core.wf(),
            core.settings_valid(),
            !core.visible,
            core.mode == Mode::Space,
            core.selection == 0,
            core.hover is None,
            core.items@.len() == 0,
            core.layout is None,
            core.mru@.len() == 0,
            core.mru_space@.len() == 0,
            core.mru_app@.len() == 0,
            core.active is None,
            core.prev is None,
            !core.quick_pending,
            !core.quick_show_dispatched,
            core.quick_deadline == now,
            core.quick_mode == Mode::Space,
            core.quick_delay_ms == 80,
            !core.cmd_held,
            core.tags@ == seq![None::<u32>, None::<u32>, None::<u32>],
            core.tracked_ids@.len() == 0,
            !core.refresh_all,
            core.wrap == wrap,
            core.capture_interval_ms == 45_000,
    {
        let core = Core {
            visible: false,
            mode: Mode::Space,
            selection: 0,
            hover: None,
            items: Vec::new(),
            layout: None,
            mru: VecDeque::new(),
            mru_space: VecDeque::new(),
            mru_app: VecDeque::new(),
            active: None,
            prev: None,
            quick_pending: false,
            quick_show_dispatched: false,
            quick_deadline: now,
            quick_mode: Mode::Space,
            quick_delay_ms: 80,
            cmd_held: false,
            tags: [None, None, None],
            tracked_ids: Vec::new(),
            refresh_all: false,
            wrap,
            capture_interval_ms: 45_000,
        };
        assert(core.tags@ =~= seq![None::<u32>, None::<u32>, None::<u32>]);
        core
    }

    /// Tag number (from one) of a window, if it has a tag.
    pub fn tag_of(&self, window_id: u32) -> (n: Option<usize>)
        ensures
            tag_number(self.tags@, window_id, n),
    {
        let mut i: usize = 0;
        while i < MAX_TAGS
            invariant
                0 <= i <= MAX_TAGS,
                forall|k: int| 0 <= k < i ==> #[trigger] self.tags@[k] != Some(window_id),
            decreases MAX_TAGS - i,
        {
            if self.tags[i] == Some(window_id) {
                return Some(i + 1);
            }
            i += 1;
        }
        None
    }

    /// The selection one entry further, in a circle.
    pub open spec fn next_selection(self) -> usize {
        if self.items@.len() == 0 {
            0
        } else {
            ((self.selection + 1) % self.items@.len() as int) as usize
        }
    }

    /// The selection one entry back, in a circle.
    pub open spec fn prev_selection(self) -> usize {
        if self.items@.len() == 0 {
            0
        } else {
            ((self.selection + self.items@.len() - 1) % self.items@.len() as int) as usize
        }
    }

    pub fn nav_next(&mut self)
        requires
            old(self).selection < usize::MAX,
        ensures
            *final(self) == (Core { selection: old(self).next_selection(), ..*old(self) }),
            old(self).wf() ==> final(self).wf(),
    {
        if self.items.len() == 0 {
            self.selection = 0;
            return;
        }
        self.selection = (self.selection + 1) % self.items.len();
    }

    pub fn nav_prev(&mut self)
        ensures
            *final(self) == (Core { selection: old(self).prev_selection(), ..*old(self) }),
            old(self).wf() ==> final(self).wf(),
    {
        if self.items.len() == 0 {
            self.selection = 0;
            return;
        }
        let n = self.items.len();
        if self.selection == 0 {
            proof {
                vstd::arithmetic::div_mod::lemma_small_mod((n - 1) as nat, n as nat);
            }
            self.selection = n - 1;
        } else {
            proof {
                vstd::arithmetic::div_mod::lemma_mod_add_multiples_vanish(
                    self.selection - 1,
                    n as int,
                );
            }
            self.selection = (self.selection - 1) % n;
        }
    }

    /// The selection moves to `to` when stepping in direction `dir`.
    pub open spec fn steps_to(self, dir: Dir, to: usize) -> bool {
        if self.items@.len() == 0 {
            to == self.selection
        } else {
            match self.layout {
                Some(l) => l.leads_to(self.selection, dir, self.wrap, to),
                None => match dir {
                    Dir::Next => to == self.next_selection(),
                    Dir::Prev => to == self.prev_selection(),
                    _ => to == self.selection,
                },
            }
        }
    }

    /// Move the selection in the grid; without a grid only along the list.
    pub fn nav_dir(&mut self, dir: Dir)
        requires
            old(self).wf(),
        ensures
            final(self).wf(),
            old(self).steps_to(dir, final(self).selection),
            *final(self) == (Core { selection: final(self).selection, ..*old(self) }),
    {
        if self.items.len() == 0 {
            return;
        }
        let to: Option<usize> = match &self.layout {
            Some(l) => Some(l.nav(self.selection, dir, self.wrap)),
            None => None,
        };
        match to {
            Some(to) => {
                self.selection = to;
            },
            None => match dir {
                Dir::Next => self.nav_next(),
                Dir::Prev => self.nav_prev(),
                _ => {},
            },
        }
    }
}

// ---------- commands ----------

/// What a background collection of windows brought for the overlay.
#[derive(Debug)]
pub struct ShowData {
    pub mode: Mode,
    pub display_id: u32,
    pub items: Vec<Item>,
    /// The focused window, or else the focused app's frontmost window.
    pub front_window: Option<u32>,
    /// Fingerprint of the display's windows.
    pub last_window_ids: Vec<u32>,
    /// Show only if the hotkey's modifier is still held.
    pub require_cmd_held: bool,
    /// Start on the last entry instead of the first.
    pub backwards: bool,
}

/// Commands to the main thread.
#[derive(Debug)]
pub enum MainCmd {
    /// Open the overlay; the flag says whether the hotkey's modifier has to be
    /// held until it is there.
    Show(Mode, bool),
    /// Open the overlay with its last entry selected, as long as the hotkey's
    /// modifier is held.
    ShowBackwards(Mode),
    /// The windows for the overlay have been collected.
    ShowReady(ShowData),
    Redraw,
    Activate(usize),
    /// Focus the window of an earlier switch once more, unless another switch
    /// came in between.
    Refocus(Item, u64),
    /// Quick tap: switch straight to the previous window without the overlay.
    QuickSwitch(Mode),
    Hide,
    ThumbUpdated(u32),
    /// Add or remove the tag of a window.
    ToggleTag(u32),
    /// Switch straight to the window with this tag number.
    ActivateTag(usize),
    /// Show a hint in the overlay for a moment.
    TagHint(String),
    OpenPanel,
    PermDialog,
    Tick,
    Quit,
}

} // verus!
