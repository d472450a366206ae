//! What the main thread does with commands, mouse events and ticks.
//!
//! The functions here decide; what they decide is carried out by the caller,
//! who also looks up what only the system knows (the focused window, the
//! windows on screen, the size of a screen) and hands it back.

use crate::capture;
use crate::config;
use crate::config::{clamp_delay, clamp_interval, Config};
use crate::layout;
use crate::recency;
use crate::recency::{find_of_app, find_window, order_items, present, toggle_target, touch_mru};
use crate::state;
use crate::state::{has_elapsed, Core, Item, Mode, ShowData};
use crate::windows;
use crate::windows::Win;
use std::collections::{HashMap, VecDeque};
use vstd::prelude::*;

verus! {

/// After a switch of its own the switcher trusts its own record of the active
/// window for this long, because activating an app takes a moment.
pub const ACTIVATE_GRACE_MS: u64 = 200;

/// How long a window list is reused by further quick switches.
pub const COLLECT_CACHE_TTL_MS: u64 = 300;

/// How long a hint stays on the overlay.
pub const HINT_MS: u64 = 2000;

/// How often the overlay's display is checked for a desktop switch.
pub const FINGERPRINT_MS: u64 = 500;

/// How often unused images are dropped.
pub const GC_MS: u64 = 1000;

/// Scrolling by this many milli-points moves the selection.
pub const SCROLL_STEP: i64 = 15_000;

/// What has the focus.
#[derive(Clone, Copy, Debug)]
pub struct Focus {
    pub pid: i32,
    /// The focused window, when it is known.
    pub window_id: Option<u32>,
    /// The display that it is on, when it is known.
    pub display_id: Option<u32>,
}

/// A text that is shown on the overlay for a moment.
#[derive(Debug)]
pub struct Hint {
    pub text: String,
    pub until: u64,
}

/// A window list that quick switches reuse.
#[derive(Debug)]
pub struct CollectCache {
    pub mode: Mode,
    pub display_id: u32,
    pub items: Vec<Item>,
    pub at: u64,
}

/// An image that was built from a thumbnail.
#[derive(Clone, Copy, Debug)]
pub struct Drawn {
    /// Generation of the thumbnail.
    pub gen: u64,
    /// Handle of the image.
    pub image: u64,
}

/// State of the overlay, owned by the main thread.
#[derive(Debug)]
pub struct AppInner {
    pub cfg: Config,
    /// The overlay's window has been created.
    pub initialized: bool,
    /// Images of the thumbnails that have been drawn, by window id.
    pub thumb_ns: HashMap<u32, Drawn>,
    /// The app that was in front before the overlay opened.
    pub prev_app_pid: Option<i32>,
    /// The focused window on the overlay's display.
    pub front_window: Option<u32>,
    pub collect_cache: Option<CollectCache>,
    /// Scrolling that has not moved the selection yet, in milli-points.
    pub scroll_acc: i64,
    /// When the switcher last activated a window.
    pub last_activate: Option<u64>,
    /// Number of the last switch, by which late retries of an older one are
    /// told apart.
    pub activation_gen: u64,
    /// A thumbnail changed since the overlay was drawn.
    pub thumb_dirty: bool,
    pub last_gc: u64,
    pub last_fingerprint: u64,
    /// The display that the overlay is on; zero when it is not known yet.
    pub display_id: u32,
    /// Fingerprint of the windows on that display.
    pub last_window_ids: Vec<u32>,
    pub hint: Option<Hint>,
}

impl AppInner {
    /// The scrolling that is pending is less than a step.
    pub open spec fn wf(self) -> bool {
        -SCROLL_STEP < self.scroll_acc < SCROLL_STEP
    }
}

// ---------- settings ----------

/// Capture interval in whole seconds.
pub fn current_capture_interval(core: &Core) -> (secs: u64)
    ensures
        secs == core.capture_interval_ms / 1000,
{
    core.capture_interval_ms / 1000
}

/// Set the capture interval, in seconds. It applies at once.
pub fn set_capture_interval(core: &mut Core, secs: u64)
    ensures
        *final(core) == (Core {
            capture_interval_ms: (config::clamped_interval(secs) * 1000) as u64,
            ..*old(core)
        }),
        old(core).settings_valid() ==> final(core).settings_valid(),
        old(core).wf() ==> final(core).wf(),
{
    core.capture_interval_ms = clamp_interval(secs) * 1000;
}

/// Quick-tap delay in milliseconds.
pub fn current_quick_delay(core: &Core) -> (ms: u64)
    ensures
        ms == core.quick_delay_ms,
{
    core.quick_delay_ms
}

/// Set the quick-tap delay, in milliseconds. It applies from the next hotkey
/// press on.
pub fn set_quick_delay(core: &mut Core, ms: u64)
    ensures
        *final(core) == (Core { quick_delay_ms: config::clamped_delay(ms), ..*old(core) }),
        old(core).settings_valid() ==> final(core).settings_valid(),
        old(core).wf() ==> final(core).wf(),
{
    core.quick_delay_ms = clamp_delay(ms);
}

/// The setting that was made is the one that is read back, moved into its
/// range.
pub proof fn law_interval_reads_back(core: Core, secs: u64)
    ensures
        (Core {
            capture_interval_ms: (config::clamped_interval(secs) * 1000) as u64,
            ..core
        }).capture_interval_ms / 1000 == config::clamped_interval(secs),
{
}

/// Set up the overlay's state and apply the configuration.
pub fn init_app(cfg: Config, core: &mut Core, now: u64) -> (app: AppInner)
    ensures
        app.wf(),
        app.cfg == cfg,
        !app.initialized,
        app.thumb_ns@ == Map::<u32, Drawn>::empty(),
        app.prev_app_pid is None,
        app.front_window is None,
        app.collect_cache is None,
        app.scroll_acc == 0,
        app.last_activate is None,
        app.activation_gen == 0,
        !app.thumb_dirty,
        app.last_gc == now,
        app.last_fingerprint == now,
        app.display_id == 0,
        app.last_window_ids@.len() == 0,
        app.hint is None,
        *final(core) == (Core {
            capture_interval_ms: if cfg.capture_interval >= capture::MIN_INTERVAL_MS {
                cfg.capture_interval
            } else {
                capture::MIN_INTERVAL_MS
            },
            quick_delay_ms: config::clamped_delay(cfg.quick_delay),
            ..*old(core)
        }),
        config::valid_settings(cfg.capture_interval, cfg.quick_delay) ==> {
            &&& final(core).settings_valid()
            &&& final(core).capture_interval_ms == cfg.capture_interval
            &&& final(core).quick_delay_ms == cfg.quick_delay
        },
        old(core).wf() ==> final(core).wf(),
{
    core.capture_interval_ms =
    if cfg.capture_interval >= capture::MIN_INTERVAL_MS {
        cfg.capture_interval
    } else {
        capture::MIN_INTERVAL_MS
    };
    core.quick_delay_ms = clamp_delay(cfg.quick_delay);
    AppInner {
        cfg,
        initialized: false,
        thumb_ns: HashMap::new(),
        prev_app_pid: None,
        front_window: None,
        collect_cache: None,
        scroll_acc: 0,
        last_activate: None,
        activation_gen: 0,
        thumb_dirty: false,
        last_gc: now,
        last_fingerprint: now,
        display_id: 0,
        last_window_ids: Vec::new(),
        hint: None,
    }
}

// ---------- recent windows ----------

/// Recent windows of a mode.
pub open spec fn recent_of(core: Core, mode: Mode) -> Seq<u32> {
    match mode {
        Mode::Space => core.mru_space@,
        Mode::App => core.mru_app@,
    }
}

/// `after` has `recent` as the recent windows of `mode`; those of the other
/// mode are the ones of `before`.
pub open spec fn remembers(before: Core, after: Core, mode: Mode, recent: Seq<u32>) -> bool {
    match mode {
        Mode::Space => after.mru_space@ == recent && after.mru_app == before.mru_app,
        Mode::App => after.mru_app@ == recent && after.mru_space == before.mru_space,
    }
}

fn copy_ids(ids: &VecDeque<u32>) -> (copy: VecDeque<u32>)
    ensures
        copy@ == ids@,
{
    let copy = ids.clone();
    assert(copy@ =~= ids@);
    copy
}

/// Keep the recent windows of the current mode.
fn persist_mru(core: &mut Core)
    ensures
        remembers(*old(core), *final(core), old(core).mode, old(core).mru@),
        *final(core) == (Core {
            mru_space: final(core).mru_space,
            mru_app: final(core).mru_app,
            ..*old(core)
        }),
        old(core).wf() ==> final(core).wf(),
{
    match core.mode {
        Mode::Space => {
            core.mru_space = copy_ids(&core.mru);
        },
        Mode::App => {
            core.mru_app = copy_ids(&core.mru);
        },
    }
}

/// Switch to a mode and its recent windows.
fn enter_mode(core: &mut Core, mode: Mode)
    ensures
        final(core).mru@ == recent_of(*old(core), mode),
        *final(core) == (Core { mode, mru: final(core).mru, ..*old(core) }),
        old(core).wf() ==> final(core).wf(),
{
    core.mode = mode;
    core.mru =
    match mode {
        Mode::Space => copy_ids(&core.mru_space),
        Mode::App => copy_ids(&core.mru_app),
    };
}

// ---------- showing the overlay ----------

/// What the collection of windows for the overlay needs.
#[derive(Clone, Copy, Debug)]
pub struct ShowJob {
    pub mode: Mode,
    pub display_id: u32,
    pub front_pid: Option<i32>,
    pub focused_window: Option<u32>,
    pub require_cmd_held: bool,
    pub backwards: bool,
}

pub open spec fn focus_pid(focus: Option<Focus>) -> Option<i32> {
    match focus {
        Some(f) => Some(f.pid),
        None => None,
    }
}

pub open spec fn focus_window(focus: Option<Focus>) -> Option<u32> {
    match focus {
        Some(f) => f.window_id,
        None => None,
    }
}

/// The display of the focused window, or the pointer's display when that is
/// not known.
pub open spec fn display_of(focus: Option<Focus>, cursor_display: u32) -> u32 {
    match focus {
        Some(f) => match f.display_id {
            Some(d) => d,
            None => cursor_display,
        },
        None => cursor_display,
    }
}

/// The display that the switcher works on.
pub fn focused_display(focus: &Option<Focus>, cursor_display: u32) -> (display: u32)
    ensures
        display == display_of(*focus, cursor_display),
{
    match focus {
        Some(f) => match f.display_id {
            Some(d) => d,
            None => cursor_display,
        },
        None => cursor_display,
    }
}

/// The window in front: the focused window if it is listed, or else the first
/// listed window of the focused app.
pub open spec fn front_of(
    items: Seq<Item>,
    focused: Option<u32>,
    front_pid: Option<i32>,
) -> Option<u32> {
    match focused {
        Some(id) if recency::has_window(items, id) => Some(id),
        _ => match front_pid {
            Some(pid) => recency::id_of(recency::window_of_app(items, pid)),
            None => None,
        },
    }
}

fn front_window_of(items: &Vec<Item>, focused: Option<u32>, front_pid: Option<i32>) -> (front:
    Option<u32>)
    ensures
        front == front_of(items@, focused, front_pid),
{
    match focused {
        Some(id) if present(items, id) => Some(id),
        _ => match front_pid {
            Some(pid) => find_of_app(items, pid),
            None => None,
        },
    }
}

/// Collect what the overlay shows from the windows on screen. `bounds` is the
/// area of the job's display, when it is known.
pub fn collect_show(
    job: &ShowJob,
    wins: &Vec<Win>,
    cfg: &Config,
    our_pid: u32,
    bounds: Option<(i32, i32, i32, i32)>,
) -> (data: ShowData)
    ensures
        data.mode == job.mode,
        data.display_id == job.display_id,
        data.items@ == windows::collected(wins@, cfg, job.mode, our_pid, bounds, job.front_pid),
        data.front_window == front_of(data.items@, job.focused_window, job.front_pid),
        match bounds {
            Some(b) => windows::sorted(data.last_window_ids@) && data.last_window_ids@.to_multiset()
                == wins@.filter(|w: Win| windows::fingerprinted(w, b)).map_values(
                |w: Win| w.id,
            ).to_multiset(),
            None => data.last_window_ids@.len() == 0,
        },
        data.require_cmd_held == job.require_cmd_held,
        data.backwards == job.backwards,
{
    let items = windows::collect(wins, cfg, job.mode, our_pid, bounds, job.front_pid);
    let front_window = front_window_of(&items, job.focused_window, job.front_pid);
    let last_window_ids = match bounds {
        Some(b) => windows::display_window_ids(wins, b),
        None => Vec::new(),
    };
    ShowData {
        mode: job.mode,
        display_id: job.display_id,
        items,
        front_window,
        last_window_ids,
        require_cmd_held: job.require_cmd_held,
        backwards: job.backwards,
    }
}

impl AppInner {
    /// Whether the overlay's window still has to be created; from now on it
    /// counts as created.
    pub fn ensure_panel(&mut self) -> (create: bool)
        ensures
            create == !old(self).initialized,
            *final(self) == (AppInner { initialized: true, ..*old(self) }),
    {
        let create = !self.initialized;
        self.initialized = true;
        create
    }

    /// Begin to show the overlay. Its windows are collected in the background;
    /// `finish_show` takes the result.
    pub fn begin_show(
        &mut self,
        core: &mut Core,
        mode: Mode,
        require_cmd_held: bool,
        backwards: bool,
        focus: Option<Focus>,
        cursor_display: u32,
    ) -> (job: ShowJob)
        ensures
            job == (ShowJob {
                mode,
                display_id: display_of(focus, cursor_display),
                front_pid: focus_pid(focus),
                focused_window: focus_window(focus),
                require_cmd_held,
                backwards,
            }),
            *final(self) == (AppInner {
                hint: None,
                collect_cache: None,
                display_id: display_of(focus, cursor_display),
                prev_app_pid: focus_pid(focus),
                ..*old(self)
            }),
            final(core).mru@ == recent_of(*old(core), mode),
            *final(core) == (Core { mode, mru: final(core).mru, ..*old(core) }),
            old(core).wf() ==> final(core).wf(),
    {
        self.hint = None;
        self.collect_cache = None;
        let display_id = focused_display(&focus, cursor_display);
        let front_pid = match focus {
            Some(f) => Some(f.pid),
            None => None,
        };
        let focused_window = match focus {
            Some(f) => f.window_id,
            None => None,
        };
        self.display_id = display_id;
        self.prev_app_pid = front_pid;
        enter_mode(core, mode);
        ShowJob { mode, display_id, front_pid, focused_window, require_cmd_held, backwards }
    }
}

// ---------- the entries ----------

/// `after` lists the windows of `before` and those of the entries, none twice.
pub open spec fn merged(before: Seq<u32>, items: Seq<Item>, after: Seq<u32>) -> bool {
    &&& after.no_duplicates()
    &&& forall|id: u32| #[trigger]
        after.contains(id) <==> before.contains(id) || recency::has_window(items, id)
}

/// Add a window to a list unless it is in it.
fn add_id(ids: &mut Vec<u32>, id: u32)
    requires
        old(ids)@.no_duplicates(),
    ensures
        final(ids)@.no_duplicates(),
        forall|x: u32| #[trigger] final(ids)@.contains(x) <==> old(ids)@.contains(x) || x == id,
{
    let mut i: usize = 0;
    while i < ids.len()
        invariant
            i <= ids.len(),
            ids@ == old(ids)@,
            ids@.no_duplicates(),
            forall|k: int| 0 <= k < i ==> ids@[k] != id,
        decreases ids.len() - i,
    {
        if ids[i] == id {
            return ;
        }
        i += 1;
    }
    ids.push(id);
    assert forall|x: u32| #[trigger] ids@.contains(x) <==> old(ids)@.contains(x) || x == id by {
        if old(ids)@.contains(x) {
            let k = choose|k: int| 0 <= k < old(ids)@.len() && old(ids)@[k] == x;
            assert(ids@[k] == x);
        }
        assert(ids@[ids@.len() - 1] == id);
    }
}

/// The windows of the entries join those whose thumbnails are kept. Windows of
/// other displays stay, so that their thumbnails are not lost.
fn merge_tracked(tracked_ids: &Vec<u32>, items: &Vec<Item>) -> (ids: Vec<u32>)
    ensures
        merged(tracked_ids@, items@, ids@),
{
    let mut ids: Vec<u32> = Vec::new();
    let mut i: usize = 0;
    while i < tracked_ids.len()
        invariant
            i <= tracked_ids.len(),
            ids@.no_duplicates(),
            forall|id: u32| #[trigger]
                ids@.contains(id) <==> tracked_ids@.take(i as int).contains(id),
        decreases tracked_ids.len() - i,
    {
        let ghost before = ids@;
        add_id(&mut ids, tracked_ids[i]);
        proof {
            let done = tracked_ids@.take(i as int);
            assert(tracked_ids@.take(i + 1) =~= done.push(tracked_ids@[i as int]));
            assert forall|id: u32| #[trigger]
                ids@.contains(id) <==> tracked_ids@.take(i + 1).contains(id) by {
                assert(before.contains(id) <==> done.contains(id));
                lemma_push_contains(done, tracked_ids@[i as int], id);
            }
        }
        i += 1;
    }
    assert(tracked_ids@.take(i as int) =~= tracked_ids@);
    let mut j: usize = 0;
    while j < items.len()
        invariant
            j <= items.len(),
            ids@.no_duplicates(),
            forall|id: u32| #[trigger]
                ids@.contains(id) <==> tracked_ids@.contains(id) || exists|k: int|
                    0 <= k < j && (#[trigger] items@[k]).id == id,
        decreases items.len() - j,
    {
        let ghost before = ids@;
        add_id(&mut ids, items[j].id);
        proof {
            assert forall|id: u32| #[trigger]
                ids@.contains(id) <==> tracked_ids@.contains(id) || exists|k: int|
                    0 <= k < j + 1 && (#[trigger] items@[k]).id == id by {
                assert(before.contains(id) <==> tracked_ids@.contains(id) || exists|k: int|
                    0 <= k < j && (#[trigger] items@[k]).id == id);
                if id == items@[j as int].id {
                    assert(items@[j as int].id == id);
                }
            }
        }
        j += 1;
    }
    ids
}

proof fn lemma_push_contains(s: Seq<u32>, x: u32, y: u32)
    ensures
        s.push(x).contains(y) <==> s.contains(y) || y == x,
{
    if s.contains(y) {
        let k = choose|k: int| 0 <= k < s.len() && s[k] == y;
        assert(s.push(x)[k] == y);
    }
    if s.push(x).contains(y) && y != x {
        let k = choose|k: int| 0 <= k < s.push(x).len() && s.push(x)[k] == y;
        assert(s[k] == y);
    }
    assert(s.push(x)[s.len() as int] == x);
}

/// `items` are laid out in the order of `all`'s ranks, on a screen of the given
/// size.
pub open spec fn laid_out(
    all: Seq<Item>,
    after: Core,
    order: Seq<u32>,
    screen_w: i32,
    screen_h: i32,
    cfg: &Config,
) -> bool {
    &&& recency::ordered_by(all, after.items@, order)
    &&& after.items@.len() == all.len()
    &&& after.layout matches Some(l) && l.lays_out(after.items@, screen_w, screen_h, cfg) && l.wf()
        && l.rects@.len() == all.len()
}

/// Last valid selection in a list of `n` entries, at most `selection`.
pub open spec fn clamp_selection(selection: usize, n: nat) -> usize {
    if n == 0 {
        0
    } else if selection >= n {
        (n - 1) as usize
    } else {
        selection
    }
}

/// Order the entries, with window `sel` first, and lay them out.
fn layout_items(core: &mut Core, sel: Option<u32>, screen_w: i32, screen_h: i32, cfg: &Config)
    requires
        old(core).items@.len() <= layout::MAX_ITEMS,
    ensures
        laid_out(
            old(core).items@,
            *final(core),
            recency::priority(old(core).mru@, sel, old(core).active),
            screen_w,
            screen_h,
            cfg,
        ),
        final(core).selection == clamp_selection(old(core).selection, old(core).items@.len()),
        *final(core) == (Core {
            items: final(core).items,
            layout: final(core).layout,
            selection: final(core).selection,
            ..*old(core)
        }),
{
    let active = core.active;
    order_items(&mut core.items, &core.mru, sel, active);
    core.layout = Some(layout::compute(&core.items, screen_w, screen_h, cfg));
    let n: usize = core.items.len();
    if n == 0 {
        core.selection = 0;
    } else if core.selection >= n {
        core.selection = n - 1;
    }
}

/// The active window and the one before it, once window `front` is seen to
/// have the focus.
pub open spec fn pair_after_focus(
    active: Option<u32>,
    prev: Option<u32>,
    front: Option<u32>,
) -> (Option<u32>, Option<u32>) {
    if front is Some && active != front {
        (front, active)
    } else {
        (active, prev)
    }
}

pub open spec fn mru_after_focus(mru: Seq<u32>, front: Option<u32>) -> Seq<u32> {
    match front {
        Some(f) => recency::touched(mru, f),
        None => mru,
    }
}

/// The window that is selected when the overlay opens: the one that was active
/// before, or else the second most recent one, if they are listed; otherwise
/// the active one.
pub open spec fn start_window(
    items: Seq<Item>,
    prev: Option<u32>,
    mru: Seq<u32>,
    active: Option<u32>,
) -> Option<u32> {
    match prev {
        Some(p) if recency::has_window(items, p) => Some(p),
        _ => if mru.len() > 1 && recency::has_window(items, mru[1]) {
            Some(mru[1])
        } else {
            active
        },
    }
}

fn start_window_of(core: &Core) -> (start: Option<u32>)
    ensures
        start == start_window(core.items@, core.prev, core.mru@, core.active),
{
    match core.prev {
        Some(p) if present(&core.items, p) => Some(p),
        _ => if core.mru.len() > 1 && present(&core.items, core.mru[1]) {
            Some(core.mru[1])
        } else {
            core.active
        },
    }
}

/// The collected windows come too late: the modifier that had to be held has
/// been released, or the switcher shows something else by now.
pub open spec fn too_late(core: Core, data: ShowData) -> bool {
    (data.require_cmd_held && !core.cmd_held) || core.mode != data.mode
}

/// The overlay opens with the collected windows.
pub open spec fn opens(
    before: Core,
    after: Core,
    data: ShowData,
    screen_w: i32,
    screen_h: i32,
    cfg: &Config,
) -> bool {
    let pair = pair_after_focus(before.active, before.prev, data.front_window);
    let mru = mru_after_focus(before.mru@, data.front_window);
    let start = start_window(data.items@, pair.1, mru, pair.0);
    &&& after.visible
    &&& after.active == pair.0
    &&& after.prev == pair.1
    &&& after.mru@ == mru
    &&& laid_out(
        data.items@,
        after,
        recency::priority(mru, start, pair.0),
        screen_w,
        screen_h,
        cfg,
    )
    &&& after.selection == (if data.backwards && data.items@.len() > 0 {
        data.items@.len() - 1
    } else {
        0
    })
    &&& after.hover is None
    &&& !after.quick_pending
    &&& !after.quick_show_dispatched
    &&& after.refresh_all
    &&& merged(before.tracked_ids@, data.items@, after.tracked_ids@)
    &&& after == (Core {
        visible: after.visible,
        selection: after.selection,
        hover: after.hover,
        items: after.items,
        layout: after.layout,
        mru: after.mru,
        active: after.active,
        prev: after.prev,
        quick_pending: after.quick_pending,
        quick_show_dispatched: after.quick_show_dispatched,
        tracked_ids: after.tracked_ids,
        refresh_all: after.refresh_all,
        ..before
    })
}

impl AppInner {
    /// Show the overlay with the collected windows on a screen of the given
    /// size. Nothing happens when they come too late.
    pub fn finish_show(
        &mut self,
        core: &mut Core,
        data: ShowData,
        screen_w: i32,
        screen_h: i32,
    ) -> (shown: bool)
        requires
            old(core).wf(),
            data.items@.len() <= layout::MAX_ITEMS,
        ensures
            final(core).wf(),
            shown == !too_late(*old(core), data),
            shown ==> {
                &&& opens(*old(core), *final(core), data, screen_w, screen_h, &old(self).cfg)
                &&& *final(self) == (AppInner {
                    display_id: data.display_id,
                    front_window: data.front_window,
                    last_window_ids: data.last_window_ids,
                    ..*old(self)
                })
            },
            !shown ==> *final(core) == *old(core) && *final(self) == *old(self),
    {
        if (data.require_cmd_held && !core.cmd_held) || core.mode != data.mode {
            return false;
        }
        let backwards = data.backwards;
        let front = data.front_window;
        self.display_id = data.display_id;
        self.front_window = data.front_window;
        self.last_window_ids = data.last_window_ids;
        core.items = data.items;
        core.tracked_ids = merge_tracked(&core.tracked_ids, &core.items);
        core.refresh_all = true;
        if let Some(f) = front {
            if core.active != Some(f) {
                core.prev = core.active;
                core.active = Some(f);
            }
            touch_mru(&mut core.mru, f);
        }
        let start = start_window_of(core);
        core.selection = 0;
        layout_items(core, start, screen_w, screen_h, &self.cfg);
        if backwards && core.items.len() > 0 {
            core.selection = core.items.len() - 1;
        }
        core.hover = None;
        core.visible = true;
        core.quick_pending = false;
        core.quick_show_dispatched = false;
        true
    }
}

// ---------- closing the overlay ----------

/// What closing the overlay leaves to be done.
#[derive(Clone, Copy, Debug)]
pub struct Hidden {
    /// Take the overlay's window off the screen.
    pub order_out: bool,
    /// Bring this app back to the front.
    pub restore: Option<i32>,
}

/// The overlay closes, if it is up. The recent windows of its mode are kept.
pub open spec fn closes(before: Core, after: Core) -> bool {
    if before.visible {
        &&& !after.visible
        &&& after.hover is None
        &&& remembers(before, after, before.mode, before.mru@)
        &&& after == (Core {
            visible: after.visible,
            hover: after.hover,
            mru_space: after.mru_space,
            mru_app: after.mru_app,
            ..before
        })
    } else {
        after == before
    }
}

impl AppInner {
    /// Close the overlay, if it is up. With `restore` the app that was in front
    /// before comes back.
    pub fn close(&mut self, core: &mut Core, restore: bool) -> (hidden: Option<Hidden>)
        ensures
            closes(*old(core), *final(core)),
            old(core).visible ==> {
                &&& hidden == Some(
                    Hidden {
                        order_out: old(self).initialized,
                        restore: if restore {
                            old(self).prev_app_pid
                        } else {
                            None
                        },
                    },
                )
                &&& *final(self) == (AppInner { scroll_acc: 0, prev_app_pid: None, ..*old(self) })
            },
            !old(core).visible ==> hidden is None && *final(self) == *old(self),
            old(core).wf() ==> final(core).wf(),
    {
        if !core.visible {
            return None;
        }
        core.visible = false;
        core.hover = None;
        persist_mru(core);
        self.scroll_acc = 0;
        let app = self.prev_app_pid;
        self.prev_app_pid = None;
        Some(
            Hidden {
                order_out: self.initialized,
                restore: if restore {
                    app
                } else {
                    None
                },
            },
        )
    }
}

// ---------- switching ----------

/// A switch that is to be carried out.
#[derive(Debug)]
pub struct Switch {
    pub item: Item,
    /// Number of the switch.
    pub gen: u64,
    /// Set when the overlay was closed for it.
    pub hidden: Option<Hidden>,
}

/// Delays in milliseconds after which the window of a switch is focused again.
pub const REFOCUS_FIRST_MS: u64 = 50;

pub const REFOCUS_SECOND_MS: u64 = 100;

/// An app with several windows may restore another one of them when it comes
/// to the front; so the window of a switch is focused again a little later.
pub fn needs_refocus(item: &Item, ax_available: bool) -> (yes: bool)
    ensures
        yes == (item.n_same_pid > 1 && ax_available),
{
    item.n_same_pid > 1 && ax_available
}

/// Focusing a window again must not take the focus from another app.
pub fn may_refocus(item: &Item, front_pid: Option<i32>) -> (yes: bool)
    ensures
        yes == (front_pid == Some(item.pid)),
{
    match front_pid {
        Some(pid) => pid == item.pid,
        None => false,
    }
}

/// The switch to window `id` is recorded, with `mru` as the recent windows and
/// `prev` as the window that was active before; the overlay is closed.
pub open spec fn switched(
    before: Core,
    after: Core,
    mode: Mode,
    mru: Seq<u32>,
    id: u32,
    prev: Option<u32>,
) -> bool {
    &&& after.active == Some(id)
    &&& after.prev == prev
    &&& after.mode == mode
    &&& after.mru@ == mru
    &&& remembers(before, after, mode, mru)
    &&& !after.visible
    &&& after.hover == (if before.visible {
        None
    } else {
        before.hover
    })
    &&& after == (Core {
        active: after.active,
        prev: after.prev,
        mode: after.mode,
        mru: after.mru,
        mru_space: after.mru_space,
        mru_app: after.mru_app,
        visible: after.visible,
        hover: after.hover,
        ..before
    })
}

/// The overlay's state after a switch.
pub open spec fn app_switched(before: AppInner, was_visible: bool, now: u64) -> AppInner {
    AppInner {
        last_activate: Some(now),
        activation_gen: capture::next_gen(before.activation_gen),
        scroll_acc: if was_visible {
            0
        } else {
            before.scroll_acc
        },
        prev_app_pid: if was_visible {
            None
        } else {
            before.prev_app_pid
        },
        ..before
    }
}

pub open spec fn hidden_for_switch(before: AppInner, was_visible: bool) -> Option<Hidden> {
    if was_visible {
        Some(Hidden { order_out: before.initialized, restore: None })
    } else {
        None
    }
}

/// The window that counts as the previous one after a switch to `id`: a switch
/// to the active window itself leaves it as it was.
pub open spec fn prev_after_switch(active: Option<u32>, prev: Option<u32>, id: u32) -> Option<u32> {
    if active == Some(id) {
        prev
    } else {
        active
    }
}

impl AppInner {
    /// Switch to a window and record it.
    pub fn activate_item(&mut self, core: &mut Core, item: Item, now: u64) -> (switch: Switch)
        ensures
            switch == (Switch {
                item,
                gen: capture::next_gen(old(self).activation_gen),
                hidden: hidden_for_switch(*old(self), old(core).visible),
            }),
            *final(self) == app_switched(*old(self), old(core).visible, now),
            switched(
                *old(core),
                *final(core),
                old(core).mode,
                recency::touched(old(core).mru@, item.id),
                item.id,
                prev_after_switch(old(core).active, old(core).prev, item.id),
            ),
            old(core).wf() ==> final(core).wf(),
    {
        if core.active != Some(item.id) {
            core.prev = core.active;
            core.active = Some(item.id);
        }
        touch_mru(&mut core.mru, item.id);
        persist_mru(core);
        self.last_activate = Some(now);
        self.activation_gen =
        if self.activation_gen == u64::MAX {
            0
        } else {
            self.activation_gen + 1
        };
        let hidden = self.close(core, false);
        Switch { item, gen: self.activation_gen, hidden }
    }

    /// Switch to an entry of the overlay. With no such entry the overlay just
    /// closes.
    pub fn activate(&mut self, core: &mut Core, idx: usize, now: u64) -> (step: Step)
        ensures
            idx < old(core).items@.len() ==> {
                let item = old(core).items@[idx as int];
                &&& step == Step::Switch(
                    Switch {
                        item,
                        gen: capture::next_gen(old(self).activation_gen),
                        hidden: hidden_for_switch(*old(self), old(core).visible),
                    },
                )
                &&& *final(self) == app_switched(*old(self), old(core).visible, now)
                &&& switched(
                    *old(core),
                    *final(core),
                    old(core).mode,
                    recency::touched(old(core).mru@, item.id),
                    item.id,
                    prev_after_switch(old(core).active, old(core).prev, item.id),
                )
            },
            idx >= old(core).items@.len() ==> {
                &&& closes(*old(core), *final(core))
                &&& if old(core).visible {
                    &&& step == Step::Hidden(
                        Hidden { order_out: old(self).initialized, restore: None },
                    )
                    &&& *final(self) == (AppInner {
                        scroll_acc: 0,
                        prev_app_pid: None,
                        ..*old(self)
                    })
                } else {
                    &&& step is Nothing
                    &&& *final(self) == *old(self)
                }
            },
            old(core).wf() ==> final(core).wf(),
    {
        if idx < core.items.len() {
            let item = core.items[idx].clone();
            Step::Switch(self.activate_item(core, item, now))
        } else {
            match self.close(core, false) {
                Some(h) => Step::Hidden(h),
                None => Step::Nothing,
            }
        }
    }
}

/// What the caller has to do next.
#[derive(Debug)]
pub enum Step {
    Nothing,
    /// Draw the overlay.
    Redraw,
    /// Look up the focus and call `begin_show`.
    Show(Mode, bool, bool),
    /// Look up the size of the data's display and call `finish_show`.
    FinishShow(ShowData),
    /// The overlay was closed.
    Hidden(Hidden),
    /// Carry out a switch.
    Switch(Switch),
    /// Focus this window again, if `may_refocus`.
    Refocus(Item),
    /// Look up the focus, collect the windows unless they are cached, and call
    /// `quick_switch`.
    QuickSwitch(Mode),
    /// Release this image, if there is one.
    Release(Option<u64>),
    /// Look up which windows exist and call `toggle_tag`.
    ToggleTag(u32),
    /// Collect the windows of all displays and call `switch_to_tag`.
    FindTag(usize, u32),
    OpenPanel,
    PermDialog,
    /// Call `tick`.
    Tick,
    Quit,
}

// ---------- quick switch ----------

/// The window that has the focus now. Shortly after a switch of its own the
/// switcher trusts its record; otherwise the focus counts, so that switches
/// made elsewhere are noticed.
pub open spec fn current_window(
    items: Seq<Item>,
    focus: Option<Focus>,
    active: Option<u32>,
    recent: bool,
) -> u32 {
    match active {
        Some(a) if recent && recency::has_window(items, a) => a,
        _ => match front_of(items, focus_window(focus), focus_pid(focus)) {
            Some(f) => f,
            None => items[0].id,
        },
    }
}

fn current_window_of(
    items: &Vec<Item>,
    focus: &Option<Focus>,
    active: Option<u32>,
    recent: bool,
) -> (current: u32)
    requires
        items@.len() > 0,
    ensures
        current == current_window(items@, *focus, active, recent),
{
    match active {
        Some(a) if recent && present(items, a) => a,
        _ => {
            let pid = match focus {
                Some(f) => Some(f.pid),
                None => None,
            };
            let window = match focus {
                Some(f) => f.window_id,
                None => None,
            };
            match front_window_of(items, window, pid) {
                Some(f) => f,
                None => items[0].id,
            }
        },
    }
}

/// The window that was active before `current`.
pub open spec fn window_before(active: Option<u32>, prev: Option<u32>, current: u32) -> Option<u32> {
    if active == Some(current) {
        prev
    } else {
        active
    }
}

/// A quick tap is carried out: from the current window to the one that was
/// active before it, if there is one among the cached windows.
pub open spec fn quick_switched(
    app: AppInner,
    app_after: AppInner,
    core: Core,
    core_after: Core,
    mode: Mode,
    focus: Option<Focus>,
    now: u64,
    switch: Option<Switch>,
) -> bool {
    let items = app.quick_items();
    let current = current_window(
        items,
        focus,
        core.active,
        app.just_switched(now),
    );
    let prev = window_before(core.active, core.prev, current);
    let mru = recency::touched(recent_of(core, mode), current);
    if items.len() == 0 {
        &&& switch is None
        &&& app_after == app
        &&& core_after == core
    } else {
        match recency::target_of(items, current, prev) {
            None => {
                &&& switch is None
                &&& app_after == app
                &&& core_after.mru@ == mru
                &&& core_after == (Core {
                    mode,
                    mru: core_after.mru,
                    active: Some(current),
                    prev,
                    ..core
                })
            },
            Some(target) => {
                &&& recency::window_with(items, target) matches Some(item) && switch
                    == Some(
                    Switch {
                        item,
                        gen: capture::next_gen(app.activation_gen),
                        hidden: hidden_for_switch(app, core.visible),
                    },
                )
                &&& app_after == app_switched(app, core.visible, now)
                &&& switched(
                    core,
                    core_after,
                    mode,
                    recency::touched(mru, target),
                    target,
                    Some(current),
                )
            },
        }
    }
}

/// The target of a quick switch is among the windows.
proof fn lemma_target_is_listed(items: Seq<Item>, current: u32, prev: Option<u32>)
    ensures
        recency::target_of(items, current, prev) matches Some(t) ==> t != current
            && recency::window_with(items, t) is Some,
{
    if let Some(t) = recency::target_of(items, current, prev) {
        recency::lemma_first_such(items, |i: Item| i.id != current);
        recency::lemma_first_such(items, |i: Item| i.id == t);
        let k = choose|k: int| 0 <= k < items.len() && (#[trigger] items[k]).id == t;
        assert(items[k].id == t);
    }
}

impl AppInner {
    /// The windows that quick switches use.
    pub open spec fn quick_items(self) -> Seq<Item> {
        match self.collect_cache {
            Some(c) => c.items@,
            None => Seq::empty(),
        }
    }

    /// The switcher has just activated a window itself.
    pub open spec fn just_switched(self, now: u64) -> bool {
        self.last_activate matches Some(t) && state::elapsed(now, t) < ACTIVATE_GRACE_MS * 1_000_000
    }

    /// The cached window list is one of this mode and this display, and has just
    /// been collected.
    pub open spec fn cache_is_fresh(self, mode: Mode, display_id: u32, now: u64) -> bool {
        self.collect_cache matches Some(c) && c.mode == mode && c.display_id == display_id
            && state::elapsed(now, c.at) < COLLECT_CACHE_TTL_MS * 1_000_000
    }

    /// Whether the cached window list can be used for a quick switch.
    pub fn cache_hit(&self, mode: Mode, display_id: u32, now: u64) -> (hit: bool)
        ensures
            hit == self.cache_is_fresh(mode, display_id, now),
    {
        match &self.collect_cache {
            Some(c) => c.mode == mode && c.display_id == display_id && !has_elapsed(
                now,
                c.at,
                COLLECT_CACHE_TTL_MS,
            ),
            None => false,
        }
    }

    /// Keep a freshly collected window list for quick switches.
    pub fn remember(&mut self, mode: Mode, display_id: u32, items: Vec<Item>, now: u64)
        ensures
            *final(self) == (AppInner {
                collect_cache: Some(CollectCache { mode, display_id, items, at: now }),
                ..*old(self)
            }),
    {
        self.collect_cache = Some(CollectCache { mode, display_id, items, at: now });
    }

    /// Quick tap: switch straight to the window that had the focus before,
    /// without the overlay. The windows are those of the cached list.
    pub fn quick_switch(
        &mut self,
        core: &mut Core,
        mode: Mode,
        focus: Option<Focus>,
        now: u64,
    ) -> (switch: Option<Switch>)
        ensures
            quick_switched(
                *old(self),
                *final(self),
                *old(core),
                *final(core),
                mode,
                focus,
                now,
                switch,
            ),
            old(core).wf() ==> final(core).wf(),
    {
        let recent = match self.last_activate {
            Some(t) => !has_elapsed(now, t, ACTIVATE_GRACE_MS),
            None => false,
        };
        let target: Option<Item> = match &self.collect_cache {
            None => {
                return None;
            },
            Some(c) => {
                if c.items.len() == 0 {
                    return None;
                }
                let current = current_window_of(&c.items, &focus, core.active, recent);
                let prev = if core.active == Some(current) {
                    core.prev
                } else {
                    core.active
                };
                enter_mode(core, mode);
                core.active = Some(current);
                core.prev = prev;
                touch_mru(&mut core.mru, current);
                proof {
                    lemma_target_is_listed(c.items@, current, prev);
                }
                match toggle_target(&c.items, current, prev) {
                    Some(id) => match find_window(&c.items, id) {
                        Some(item) => Some(item.clone()),
                        None => None,
                    },
                    None => None,
                }
            },
        };
        match target {
            Some(item) => Some(self.activate_item(core, item, now)),
            None => None,
        }
    }
}

// ---------- desktop switches ----------

impl AppInner {
    /// The display whose windows are collected again: the one that the overlay
    /// opened on, or the focused one when none is known.
    pub fn recollect_display(&self, focus: &Option<Focus>, cursor_display: u32) -> (display: u32)
        ensures
            display == (if self.display_id != 0 {
                self.display_id
            } else {
                display_of(*focus, cursor_display)
            }),
    {
        if self.display_id != 0 {
            self.display_id
        } else {
            focused_display(focus, cursor_display)
        }
    }

    /// Show other windows on the visible overlay, after the desktop of its
    /// display has changed. `ids` is the display's new fingerprint.
    pub fn refresh_windows(
        &mut self,
        core: &mut Core,
        items: Vec<Item>,
        ids: Vec<u32>,
        display_id: u32,
        screen_w: i32,
        screen_h: i32,
    )
        requires
            old(core).wf(),
            items@.len() <= layout::MAX_ITEMS,
        ensures
            final(core).wf(),
            *final(self) == (AppInner {
                display_id,
                front_window: front_of(items@, None, old(self).prev_app_pid),
                last_window_ids: ids,
                thumb_dirty: false,
                ..*old(self)
            }),
            laid_out(
                items@,
                *final(core),
                recency::priority(old(core).mru@, None, old(core).active),
                screen_w,
                screen_h,
                &old(self).cfg,
            ),
            merged(old(core).tracked_ids@, items@, final(core).tracked_ids@),
            final(core).refresh_all,
            final(core).selection == clamp_selection(old(core).selection, items@.len()),
            *final(core) == (Core {
                items: final(core).items,
                layout: final(core).layout,
                selection: final(core).selection,
                tracked_ids: final(core).tracked_ids,
                refresh_all: final(core).refresh_all,
                ..*old(core)
            }),
    {
        self.display_id = display_id;
        self.front_window = front_window_of(&items, None, self.prev_app_pid);
        self.last_window_ids = ids;
        core.items = items;
        core.tracked_ids = merge_tracked(&core.tracked_ids, &core.items);
        core.refresh_all = true;
        layout_items(core, None, screen_w, screen_h, &self.cfg);
        self.thumb_dirty = false;
    }
}

/// Have the thumbnails of these windows captured right away, at startup.
pub fn warm_up(core: &mut Core, items: &Vec<Item>)
    ensures
        final(core).tracked_ids@ == items@.map_values(|i: Item| i.id),
        *final(core) == (Core {
            tracked_ids: final(core).tracked_ids,
            refresh_all: true,
            ..*old(core)
        }),
        old(core).wf() ==> final(core).wf(),
{
    let mut ids: Vec<u32> = Vec::new();
    let mut i: usize = 0;
    while i < items.len()
        invariant
            i <= items.len(),
            ids@ == items@.take(i as int).map_values(|i: Item| i.id),
        decreases items.len() - i,
    {
        ids.push(items[i].id);
        i += 1;
    }
    assert(items@.take(i as int) =~= items@);
    core.tracked_ids = ids;
    core.refresh_all = true;
}

} // verus!
