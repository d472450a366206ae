//! Dispatch of commands, mouse events and ticks on the main thread.

use crate::capture;
use crate::capture::{drop_untracked, Thumb, ThumbCache};
use crate::overlay;
use crate::overlay::{AppInner, Drawn, Hidden, Step, Switch, FINGERPRINT_MS, GC_MS, SCROLL_STEP};
use crate::recency;
use crate::state;
use crate::state::{has_elapsed, Core, MainCmd};
use crate::tags;
use std::collections::HashSet;
use vstd::prelude::*;

verus! {

// ---------- commands ----------

/// What the overlay's closing leaves to do.
pub open spec fn hide_step(app: AppInner, core: Core, restore: bool) -> Step {
    if core.visible {
        Step::Hidden(
            Hidden {
                order_out: app.initialized,
                restore: if restore {
                    app.prev_app_pid
                } else {
                    None
                },
            },
        )
    } else {
        Step::Nothing
    }
}

/// The overlay's state after closing.
pub open spec fn app_closed(app: AppInner, core: Core) -> AppInner {
    if core.visible {
        AppInner { scroll_acc: 0, prev_app_pid: None, ..app }
    } else {
        app
    }
}

/// The entry `idx` is switched to, or the overlay closes if there is none.
pub open spec fn activates(
    app: AppInner,
    app_after: AppInner,
    core: Core,
    core_after: Core,
    idx: usize,
    now: u64,
    step: Step,
) -> bool {
    if idx < core.items@.len() {
        let item = core.items@[idx as int];
        &&& step == Step::Switch(
            Switch {
                item,
                gen: capture::next_gen(app.activation_gen),
                hidden: overlay::hidden_for_switch(app, core.visible),
            },
        )
        &&& app_after == overlay::app_switched(app, core.visible, now)
        &&& overlay::switched(
            core,
            core_after,
            core.mode,
            recency::touched(core.mru@, item.id),
            item.id,
            overlay::prev_after_switch(core.active, core.prev, item.id),
        )
    } else {
        &&& step == hide_step(app, core, false)
        &&& app_after == app_closed(app, core)
        &&& overlay::closes(core, core_after)
    }
}

/// What a command does at once, and what it leaves to do.
pub open spec fn commanded(
    app: AppInner,
    app_after: AppInner,
    core: Core,
    core_after: Core,
    cmd: MainCmd,
    now: u64,
    step: Step,
) -> bool {
    match cmd {
        MainCmd::Activate(idx) => activates(app, app_after, core, core_after, idx, now, step),
        MainCmd::Hide => {
            &&& step == hide_step(app, core, true)
            &&& app_after == app_closed(app, core)
            &&& overlay::closes(core, core_after)
        },
        _ => core_after == core && match cmd {
            MainCmd::Show(mode, held) => step == Step::Show(mode, held, false) && app_after == app,
            MainCmd::ShowBackwards(mode) => step == Step::Show(mode, true, true) && app_after
                == app,
            MainCmd::ShowReady(data) => step == Step::FinishShow(data) && app_after == app,
            MainCmd::Redraw => step is Redraw && app_after == app,
            MainCmd::Refocus(item, gen) => step == (if app.activation_gen == gen {
                Step::Refocus(item)
            } else {
                Step::Nothing
            }) && app_after == app,
            MainCmd::QuickSwitch(mode) => step == Step::QuickSwitch(mode) && app_after == app,
            MainCmd::ThumbUpdated(id) => {
                &&& step == Step::Release(
                    if app.thumb_ns@.contains_key(id) {
                        Some(app.thumb_ns@[id].image)
                    } else {
                        None
                    },
                )
                &&& app_after.thumb_ns@ == app.thumb_ns@.remove(id)
                &&& app_after == (AppInner {
                    thumb_ns: app_after.thumb_ns,
                    thumb_dirty: true,
                    ..app
                })
            },
            MainCmd::ToggleTag(id) => step == Step::ToggleTag(id) && app_after == app,
            MainCmd::ActivateTag(n) => match tags::tagged_window(core.tags@, n) {
                Some(id) => step == Step::FindTag(n, id) && app_after == app,
                None => step is Redraw && tags::hints(
                    app,
                    app_after,
                    tags::unset_text(n as int),
                    now,
                ),
            },
            MainCmd::TagHint(text) => step is Redraw && tags::hints(app, app_after, text@, now),
            MainCmd::OpenPanel => step is OpenPanel && app_after == app,
            MainCmd::PermDialog => step is PermDialog && app_after == app,
            MainCmd::Tick => step is Tick && app_after == app,
            MainCmd::Quit => step is Quit && app_after == app,
            _ => true,
        },
    }
}

/// Handle a command: what can be decided at once is done, and the step that is
/// left to the caller is returned.
pub fn handle_cmd(app: &mut AppInner, core: &mut Core, cmd: MainCmd, now: u64) -> (step: Step)
    requires
        cmd matches MainCmd::ActivateTag(n) ==> n >= 1,
    ensures
        commanded(*old(app), *final(app), *old(core), *final(core), cmd, now, step),
        old(app).wf() ==> final(app).wf(),
        old(core).wf() ==> final(core).wf(),
{
    broadcast use vstd::std_specs::hash::group_hash_axioms;

    match cmd {
        MainCmd::Show(mode, held) => Step::Show(mode, held, false),
        MainCmd::ShowBackwards(mode) => Step::Show(mode, true, true),
        MainCmd::ShowReady(data) => Step::FinishShow(data),
        MainCmd::Redraw => Step::Redraw,
        MainCmd::Activate(idx) => app.activate(core, idx, now),
        MainCmd::Refocus(item, gen) => if app.activation_gen == gen {
            Step::Refocus(item)
        } else {
            Step::Nothing
        },
        MainCmd::QuickSwitch(mode) => Step::QuickSwitch(mode),
        MainCmd::Hide => match app.close(core, true) {
            Some(h) => Step::Hidden(h),
            None => Step::Nothing,
        },
        MainCmd::ThumbUpdated(id) => {
            app.thumb_dirty = true;
            match app.thumb_ns.remove(&id) {
                Some(drawn) => Step::Release(Some(drawn.image)),
                None => {
                    assert(old(app).thumb_ns@.remove(id) =~= old(app).thumb_ns@);
                    Step::Release(None)
                },
            }
        },
        MainCmd::ToggleTag(id) => Step::ToggleTag(id),
        MainCmd::ActivateTag(n) => app.activate_tag(core, n, now),
        MainCmd::TagHint(text) => {
            app.set_hint(text, now);
            Step::Redraw
        },
        MainCmd::OpenPanel => Step::OpenPanel,
        MainCmd::PermDialog => Step::PermDialog,
        MainCmd::Tick => Step::Tick,
        MainCmd::Quit => Step::Quit,
    }
}

// ---------- mouse ----------

/// A mouse event on the overlay. Points are in milli-points from the bottom
/// left corner.
#[derive(Clone, Copy, Debug)]
pub enum Mouse {
    /// A button was pressed.
    Down(i64, i64),
    Moved(i64, i64),
    /// Vertical scrolling.
    Scroll(i32),
}

/// The card at a point is `hit`.
pub open spec fn hits(core: Core, x: i64, y: i64, hit: Option<usize>) -> bool {
    match core.layout {
        Some(l) => l.hits(x as int, y as int, hit),
        None => hit is None,
    }
}

fn hit_at(core: &Core, x: i64, y: i64) -> (hit: Option<usize>)
    ensures
        hits(*core, x, y, hit),
{
    match &core.layout {
        Some(l) => l.hit(x, y),
        None => None,
    }
}

/// The pointer has moved to a point where the card `hit` is: the selection
/// follows it onto a card.
pub open spec fn hovered(core: Core, hit: Option<usize>) -> Core {
    if core.hover == hit {
        core
    } else {
        Core {
            hover: hit,
            selection: match hit {
                Some(i) => i,
                None => core.selection,
            },
            ..core
        }
    }
}

/// What a mouse event does to the visible overlay. Scrolling moves the
/// selection by one entry for every full step, up to the previous entry and
/// down to the next one.
pub open spec fn mouse_handled(
    app: AppInner,
    app_after: AppInner,
    core: Core,
    core_after: Core,
    event: Mouse,
    now: u64,
    step: Step,
) -> bool {
    match event {
        Mouse::Down(x, y) => exists|hit: Option<usize>| #[trigger]
            hits(core, x, y, hit) && match hit {
                Some(i) => activates(app, app_after, core, core_after, i, now, step),
                None => {
                    &&& step == hide_step(app, core, true)
                    &&& app_after == app_closed(app, core)
                    &&& overlay::closes(core, core_after)
                },
            },
        Mouse::Moved(x, y) => exists|hit: Option<usize>| #[trigger]
            hits(core, x, y, hit) && core_after == hovered(core, hit) && app_after == app && step
                == (if core.hover == hit {
                Step::Nothing
            } else {
                Step::Redraw
            }),
        Mouse::Scroll(dy) => {
            let acc = app.scroll_acc + dy;
            if -SCROLL_STEP < acc < SCROLL_STEP {
                &&& step is Nothing
                &&& app_after == (AppInner { scroll_acc: acc as i64, ..app })
                &&& core_after == core
            } else {
                &&& step is Redraw
                &&& app_after == (AppInner { scroll_acc: 0, ..app })
                &&& core_after == (Core {
                    selection: if acc > 0 {
                        core.prev_selection()
                    } else {
                        core.next_selection()
                    },
                    ..core
                })
            }
        },
    }
}

/// Handle a mouse event. Nothing happens while the overlay is closed.
pub fn handle_mouse(app: &mut AppInner, core: &mut Core, event: Mouse, now: u64) -> (step: Step)
    requires
        old(app).wf(),
        old(core).wf(),
    ensures
        final(app).wf(),
        final(core).wf(),
        old(core).visible ==> mouse_handled(
            *old(app),
            *final(app),
            *old(core),
            *final(core),
            event,
            now,
            step,
        ),
        !old(core).visible ==> step is Nothing && *final(app) == *old(app) && *final(core) == *old(
            core,
        ),
{
    if !core.visible {
        return Step::Nothing;
    }
    assert(core.items.len() == core.items@.len());
    match event {
        Mouse::Down(x, y) => match hit_at(core, x, y) {
            Some(i) => app.activate(core, i, now),
            None => match app.close(core, true) {
                Some(h) => Step::Hidden(h),
                None => Step::Nothing,
            },
        },
        Mouse::Moved(x, y) => {
            let hit = hit_at(core, x, y);
            if core.hover == hit {
                return Step::Nothing;
            }
            core.hover = hit;
            if let Some(i) = hit {
                core.selection = i;
            }
            Step::Redraw
        },
        Mouse::Scroll(dy) => {
            let acc: i64 = app.scroll_acc + dy as i64;
            if -SCROLL_STEP < acc && acc < SCROLL_STEP {
                app.scroll_acc = acc;
                return Step::Nothing;
            }
            if acc > 0 {
                core.nav_prev();
            } else {
                core.nav_next();
            }
            app.scroll_acc = 0;
            Step::Redraw
        },
    }
}

// ---------- ticks ----------

/// What a tick begins with.
#[derive(Clone, Copy, Debug)]
pub struct TickPlan {
    /// Draw the overlay, because its hint is over.
    pub redraw: bool,
    /// Look up the windows on the overlay's display and ask whether the
    /// desktop has changed.
    pub check_desktop: bool,
}

/// What a tick ends with.
#[derive(Clone, Copy, Debug)]
pub struct TickEnd {
    /// Draw the overlay, because thumbnails have changed.
    pub redraw: bool,
    /// Drop images that are not used any more.
    pub collect_garbage: bool,
}

impl AppInner {
    pub open spec fn hint_over(self, now: u64) -> bool {
        self.hint matches Some(h) && now >= h.until
    }

    /// A check of the overlay's display for a desktop switch is due.
    pub open spec fn check_due(self, core: Core, now: u64) -> bool {
        core.visible && self.display_id != 0 && state::elapsed(now, self.last_fingerprint)
            >= FINGERPRINT_MS * 1_000_000
    }

    /// Unused images are to be dropped.
    pub open spec fn garbage_due(self, now: u64) -> bool {
        state::elapsed(now, self.last_gc) >= GC_MS * 1_000_000
    }

    /// Begin a tick: end a hint whose time is over, and see whether the
    /// overlay's display has to be checked.
    pub fn tick(&mut self, core: &Core, now: u64) -> (plan: TickPlan)
        ensures
            plan == (TickPlan {
                redraw: old(self).hint_over(now) && core.visible,
                check_desktop: old(self).check_due(*core, now),
            }),
            *final(self) == (AppInner {
                hint: if old(self).hint_over(now) {
                    None
                } else {
                    old(self).hint
                },
                last_fingerprint: if old(self).check_due(*core, now) {
                    now
                } else {
                    old(self).last_fingerprint
                },
                ..*old(self)
            }),
    {
        let over = match &self.hint {
            Some(h) => now >= h.until,
            None => false,
        };
        if over {
            self.hint = None;
        }
        let check_desktop = core.visible && self.display_id != 0 && has_elapsed(
            now,
            self.last_fingerprint,
            FINGERPRINT_MS,
        );
        if check_desktop {
            self.last_fingerprint = now;
        }
        TickPlan { redraw: over && core.visible, check_desktop }
    }

    /// Whether the windows on the overlay's display are others than before.
    pub fn desktop_changed(&self, ids: &Vec<u32>) -> (changed: bool)
        ensures
            changed == (ids@ != self.last_window_ids@),
    {
        if ids.len() != self.last_window_ids.len() {
            return true;
        }
        let mut i: usize = 0;
        while i < ids.len()
            invariant
                i <= ids.len(),
                ids@.len() == self.last_window_ids@.len(),
                forall|k: int| 0 <= k < i ==> ids@[k] == self.last_window_ids@[k],
            decreases ids.len() - i,
        {
            if ids[i] != self.last_window_ids[i] {
                return true;
            }
            i += 1;
        }
        assert(ids@ =~= self.last_window_ids@);
        false
    }

    /// End a tick in which the desktop has not changed. Thumbnails that changed
    /// since the last tick are drawn together.
    pub fn tick_end(&mut self, now: u64) -> (end: TickEnd)
        ensures
            end == (TickEnd {
                redraw: old(self).thumb_dirty,
                collect_garbage: old(self).garbage_due(now),
            }),
            *final(self) == (AppInner {
                thumb_dirty: false,
                last_gc: if end.collect_garbage {
                    now
                } else {
                    old(self).last_gc
                },
                ..*old(self)
            }),
    {
        let redraw = self.thumb_dirty;
        self.thumb_dirty = false;
        let collect_garbage = has_elapsed(now, self.last_gc, GC_MS);
        if collect_garbage {
            self.last_gc = now;
        }
        TickEnd { redraw, collect_garbage }
    }

    // ---------- images ----------

    /// Drop the thumbnails and the images of all windows whose thumbnails are
    /// not kept any more. The dropped ones are returned, to be released.
    pub fn collect_garbage(&mut self, core: &Core, thumbs: &mut ThumbCache) -> (dropped: (
        Vec<(u32, Thumb)>,
        Vec<(u32, Drawn)>,
    ))
        ensures
            final(thumbs)@ == old(thumbs)@.restrict(core.tracked_ids@.to_set()),
            final(self).thumb_ns@ == old(self).thumb_ns@.restrict(core.tracked_ids@.to_set()),
            *final(self) == (AppInner { thumb_ns: final(self).thumb_ns, ..*old(self) }),
            capture::all_dropped(old(thumbs)@, core.tracked_ids@.to_set(), dropped.0@),
            capture::all_dropped(old(self).thumb_ns@, core.tracked_ids@.to_set(), dropped.1@),
    {
        broadcast use vstd::std_specs::hash::group_hash_axioms;

        let mut keep: HashSet<u32> = HashSet::new();
        let mut i: usize = 0;
        assert(core.tracked_ids@.take(0).to_set() =~= Set::<u32>::empty());
        while i < core.tracked_ids.len()
            invariant
                i <= core.tracked_ids.len(),
                keep@ == core.tracked_ids@.take(i as int).to_set(),
            decreases core.tracked_ids.len() - i,
        {
            keep.insert(core.tracked_ids[i]);
            proof {
                let head = core.tracked_ids@.take(i as int);
                assert(core.tracked_ids@.take(i + 1) =~= head.push(core.tracked_ids@[i as int]));
                head.lemma_push_to_set_commute(core.tracked_ids@[i as int]);
            }
            i += 1;
        }
        assert(core.tracked_ids@.take(i as int) =~= core.tracked_ids@);
        let images = drop_untracked(thumbs, &keep);
        let drawn = drop_untracked(&mut self.thumb_ns, &keep);
        (images, drawn)
    }
}

/// The image that a window's card is drawn with.
#[derive(Clone, Copy, Debug)]
pub enum ImagePlan {
    /// There is no thumbnail yet.
    Missing,
    /// This image is up to date.
    Use(u64),
    /// Build an image from this thumbnail of this generation and report it
    /// with `image_built`.
    Build(u64, u64),
}

pub open spec fn image_of(drawn: Map<u32, Drawn>, thumbs: Map<u32, Thumb>, id: u32) -> ImagePlan {
    if !thumbs.contains_key(id) {
        ImagePlan::Missing
    } else if drawn.contains_key(id) && drawn[id].gen == thumbs[id].gen {
        ImagePlan::Use(drawn[id].image)
    } else {
        ImagePlan::Build(thumbs[id].image, thumbs[id].gen)
    }
}

impl AppInner {
    /// The image for a window: built again only when its thumbnail is of
    /// another generation.
    pub fn image_plan(&self, thumbs: &ThumbCache, id: u32) -> (plan: ImagePlan)
        ensures
            plan == image_of(self.thumb_ns@, thumbs@, id),
    {
        broadcast use vstd::std_specs::hash::group_hash_axioms;

        match thumbs.get(&id) {
            None => ImagePlan::Missing,
            Some(thumb) => match self.thumb_ns.get(&id) {
                Some(drawn) if drawn.gen == thumb.gen => ImagePlan::Use(drawn.image),
                _ => ImagePlan::Build(thumb.image, thumb.gen),
            },
        }
    }

    /// Keep an image that was built. The one that it replaces is returned, to
    /// be released.
    pub fn image_built(&mut self, id: u32, gen: u64, image: u64) -> (replaced: Option<u64>)
        ensures
            replaced == (if old(self).thumb_ns@.contains_key(id) {
                Some(old(self).thumb_ns@[id].image)
            } else {
                None
            }),
            final(self).thumb_ns@ == old(self).thumb_ns@.insert(id, Drawn { gen, image }),
            *final(self) == (AppInner { thumb_ns: final(self).thumb_ns, ..*old(self) }),
    {
        broadcast use vstd::std_specs::hash::group_hash_axioms;

        match self.thumb_ns.insert(id, Drawn { gen, image }) {
            Some(before) => Some(before.image),
            None => None,
        }
    }
}

} // verus!
