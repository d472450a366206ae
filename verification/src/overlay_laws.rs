//! Laws of the switcher as a whole: what a switch, a show or a quick tap does
//! to the next one.

use crate::capture;
use crate::commands;
use crate::commands::Mouse;
use crate::config::Config;
use crate::layout::{Dir, Layout};
use crate::layout_laws;
use crate::overlay;
use crate::overlay::{AppInner, Focus, Step, Switch};
use crate::recency;
use crate::recency_laws;
use crate::render;
use crate::state::{Core, Item, MainCmd, Mode, ShowData};
use crate::tags;
use crate::tap::{TapCtx, TapResult};
use crate::tap_laws;
use vstd::prelude::*;

verus! {

/// Switch from one window to another, then open the overlay while that one has
/// the focus: the window one came from is selected.
pub proof fn law_window_left_is_preselected(
    before: Core,
    switched: Core,
    shown: Core,
    after: Core,
    mode: Mode,
    mru: Seq<u32>,
    from: u32,
    to: u32,
    data: ShowData,
    screen_w: i32,
    screen_h: i32,
    cfg: &Config,
)
    requires
        before.active == Some(from),
        from != to,
        overlay::switched(
            before,
            switched,
            mode,
            mru,
            to,
            overlay::prev_after_switch(before.active, before.prev, to),
        ),
        shown.active == switched.active,
        shown.prev == switched.prev,
        overlay::opens(shown, after, data, screen_w, screen_h, cfg),
        data.front_window == Some(to),
        !data.backwards,
        recency::has_window(data.items@, from),
    ensures
        after.visible,
        after.selection < after.items@.len(),
        after.items@[after.selection as int].id == from,
{
    let m = overlay::mru_after_focus(shown.mru@, data.front_window);
    recency_laws::law_selected_window_comes_first(
        data.items@,
        after.items@,
        m,
        from,
        after.active,
    );
}

/// A switch that was made elsewhere counts, too: when the overlay opens, the
/// window that was active before it is selected.
pub proof fn law_switch_made_elsewhere_counts(
    before: Core,
    after: Core,
    from: u32,
    to: u32,
    data: ShowData,
    screen_w: i32,
    screen_h: i32,
    cfg: &Config,
)
    requires
        before.active == Some(from),
        from != to,
        overlay::opens(before, after, data, screen_w, screen_h, cfg),
        data.front_window == Some(to),
        !data.backwards,
        recency::has_window(data.items@, from),
    ensures
        after.active == Some(to),
        after.selection < after.items@.len(),
        after.items@[after.selection as int].id == from,
{
    let m = overlay::mru_after_focus(before.mru@, data.front_window);
    recency_laws::law_selected_window_comes_first(
        data.items@,
        after.items@,
        m,
        from,
        after.active,
    );
}

/// The overlay shows exactly the collected windows.
pub proof fn law_overlay_shows_what_was_collected(
    before: Core,
    after: Core,
    data: ShowData,
    screen_w: i32,
    screen_h: i32,
    cfg: &Config,
)
    requires
        overlay::opens(before, after, data, screen_w, screen_h, cfg),
    ensures
        after.items@.to_multiset() == data.items@.to_multiset(),
{
    let pair = overlay::pair_after_focus(before.active, before.prev, data.front_window);
    let m = overlay::mru_after_focus(before.mru@, data.front_window);
    let start = overlay::start_window(data.items@, pair.1, m, pair.0);
    recency_laws::law_ordering_keeps_the_entries(
        data.items@,
        after.items@,
        recency::priority(m, start, pair.0),
    );
}

/// Opened backwards, the overlay starts on its last entry.
pub proof fn law_backwards_starts_on_the_last_entry(
    before: Core,
    after: Core,
    data: ShowData,
    screen_w: i32,
    screen_h: i32,
    cfg: &Config,
)
    requires
        overlay::opens(before, after, data, screen_w, screen_h, cfg),
        data.backwards,
        data.items@.len() > 0,
    ensures
        after.selection == after.items@.len() - 1,
{
}

/// The overlay does not pop up after the user has let go of the command key:
/// windows that arrive after the release come too late.
pub proof fn law_no_overlay_after_release(
    tap: TapCtx,
    tap_after: TapCtx,
    core: Core,
    core_after: Core,
    flags: u64,
    result: TapResult,
    data: ShowData,
)
    requires
        tap.releases_command(flags),
        TapCtx::flags_changed(tap, tap_after, core, core_after, flags, result),
        data.require_cmd_held,
    ensures
        overlay::too_late(core_after, data),
{
}

/// Closing a closed overlay changes nothing.
pub proof fn law_closing_twice_is_closing_once(first: Core, second: Core, third: Core)
    requires
        overlay::closes(first, second),
        overlay::closes(second, third),
    ensures
        !second.visible,
        third == second,
{
}

/// Closing the overlay switches to no window and moves no tag.
pub proof fn law_closing_switches_nothing(before: Core, after: Core)
    requires
        overlay::closes(before, after),
    ensures
        after.active == before.active,
        after.prev == before.prev,
        after.tags == before.tags,
        after.mru == before.mru,
{
}

/// After the overlay was cancelled, releasing the command key switches to no
/// window: it only asks to close the overlay, which is closed already.
pub proof fn law_release_after_cancel_does_nothing(
    core: Core,
    closed: Core,
    tap: TapCtx,
    tap_after: TapCtx,
    released: Core,
    flags: u64,
    result: TapResult,
    app: AppInner,
    app_after: AppInner,
    after: Core,
    now: u64,
    step: Step,
)
    requires
        !core.quick_pending,
        overlay::closes(core, closed),
        tap.releases_command(flags),
        TapCtx::flags_changed(tap, tap_after, closed, released, flags, result),
        result.cmd matches Some(cmd) && commands::commanded(
            app,
            app_after,
            released,
            after,
            cmd,
            now,
            step,
        ),
    ensures
        step is Nothing,
        after == released,
        app_after == app,
{
}

/// Releasing the command key on the visible overlay switches to the window that
/// is highlighted and closes the overlay.
pub proof fn law_release_switches_to_the_highlighted_window(
    tap: TapCtx,
    tap_after: TapCtx,
    core: Core,
    released: Core,
    flags: u64,
    result: TapResult,
    app: AppInner,
    app_after: AppInner,
    after: Core,
    now: u64,
    step: Step,
)
    requires
        core.visible,
        !core.quick_pending,
        core.selection < core.items@.len(),
        tap.releases_command(flags),
        TapCtx::flags_changed(tap, tap_after, core, released, flags, result),
        result.cmd matches Some(cmd) && commands::commanded(
            app,
            app_after,
            released,
            after,
            cmd,
            now,
            step,
        ),
    ensures
        step matches Step::Switch(s) && s.item == core.items@[core.selection as int],
        after.active == Some(core.items@[core.selection as int].id),
        !after.visible,
{
}

/// Clicking a card switches to its window, whatever is selected.
pub proof fn law_click_switches_to_the_card(
    app: AppInner,
    app_after: AppInner,
    core: Core,
    after: Core,
    x: i64,
    y: i64,
    card: usize,
    now: u64,
    step: Step,
)
    requires
        core.wf(),
        commands::hits(core, x, y, Some(card)),
        commands::mouse_handled(app, app_after, core, after, Mouse::Down(x, y), now, step),
    ensures
        step matches Step::Switch(s) && s.item == core.items@[card as int],
        after.active == Some(core.items@[card as int].id),
{
    let hit = choose|hit: Option<usize>| #[trigger]
        commands::hits(core, x, y, hit) && match hit {
            Some(i) => commands::activates(app, app_after, core, after, i, now, step),
            None => {
                &&& step == commands::hide_step(app, core, true)
                &&& app_after == commands::app_closed(app, core)
                &&& overlay::closes(core, after)
            },
        };
    let l = core.layout->0;
    assert(l.rects@[card as int].thumb.covers(x as int, y as int));
    match hit {
        Some(i) => {
            assert(l.rects@[i as int].thumb.covers(x as int, y as int));
        },
        None => {},
    }
}

/// Two quick taps in a row return to the window one came from: the first goes
/// from `a` to `b`, and shortly after it, whatever seems to have the focus, or
/// as soon as `b` has it, the second goes back to `a`.
pub proof fn law_quick_taps_toggle(
    items: Seq<Item>,
    a: u32,
    b: u32,
    before: Core,
    between: Core,
    mode: Mode,
    mru: Seq<u32>,
    focus: Option<Focus>,
    recent: bool,
)
    requires
        a != b,
        recency::has_window(items, a),
        recency::has_window(items, b),
        overlay::switched(before, between, mode, mru, b, Some(a)),
        recent || overlay::front_of(
            items,
            overlay::focus_window(focus),
            overlay::focus_pid(focus),
        ) == Some(b),
    ensures
        ({
            let current = overlay::current_window(items, focus, between.active, recent);
            let prev = overlay::window_before(between.active, between.prev, current);
            recency::target_of(items, current, prev) == Some(a)
        }),
{
}

/// A quick tap after a switch that was made elsewhere goes back to the window
/// that was active before.
pub proof fn law_quick_tap_undoes_a_switch_made_elsewhere(
    items: Seq<Item>,
    core: Core,
    from: u32,
    to: u32,
    focus: Option<Focus>,
)
    requires
        core.active == Some(from),
        from != to,
        recency::has_window(items, from),
        overlay::front_of(items, overlay::focus_window(focus), overlay::focus_pid(focus)) == Some(
            to,
        ),
    ensures
        ({
            let current = overlay::current_window(items, focus, core.active, false);
            let prev = overlay::window_before(core.active, core.prev, current);
            current == to && recency::target_of(items, current, prev) == Some(from)
        }),
{
}

/// A retry of an older switch does nothing once another switch was made.
pub proof fn law_older_switch_is_not_repeated(
    app: AppInner,
    next: AppInner,
    after: AppInner,
    was_visible: bool,
    switched_at: u64,
    core: Core,
    core_after: Core,
    item: Item,
    now: u64,
    step: Step,
)
    requires
        next == overlay::app_switched(app, was_visible, switched_at),
        commands::commanded(
            next,
            after,
            core,
            core_after,
            MainCmd::Refocus(item, app.activation_gen),
            now,
            step,
        ),
    ensures
        step is Nothing,
        after == next,
        core_after == core,
{
}

/// Every switch closes the overlay and leaves its window the most recent one.
pub proof fn law_switch_is_recorded(
    app: AppInner,
    app_after: AppInner,
    core: Core,
    core_after: Core,
    idx: usize,
    now: u64,
    step: Step,
)
    requires
        idx < core.items@.len(),
        commands::activates(app, app_after, core, core_after, idx, now, step),
    ensures
        !core_after.visible,
        core_after.active == Some(core.items@[idx as int].id),
        core_after.mru@[0] == core.items@[idx as int].id,
        overlay::recent_of(core_after, core.mode) == core_after.mru@,
{
    recency_laws::law_touched_comes_first(core.mru@, core.items@[idx as int].id);
}

/// An image is built again only when its thumbnail was captured again: once
/// built, it is used until then.
pub proof fn law_built_image_is_reused(
    drawn: Map<u32, overlay::Drawn>,
    thumbs: Map<u32, capture::Thumb>,
    id: u32,
    image: u64,
)
    requires
        commands::image_of(drawn, thumbs, id) is Build,
    ensures
        ({
            let gen = commands::image_of(drawn, thumbs, id)->Build_1;
            commands::image_of(
                drawn.insert(id, overlay::Drawn { gen, image }),
                thumbs,
                id,
            ) == commands::ImagePlan::Use(image)
        }),
{
}

// ---------- opening, in detail ----------

/// Opening the overlay records the window that has the focus: it becomes the
/// active and the most recent one, and the window that was active before it
/// becomes the previous one.
pub proof fn law_opening_records_the_focus(
    before: Core,
    after: Core,
    data: ShowData,
    screen_w: i32,
    screen_h: i32,
    cfg: &Config,
)
    requires
        overlay::opens(before, after, data, screen_w, screen_h, cfg),
    ensures
        match data.front_window {
            Some(f) => {
                &&& after.active == Some(f)
                &&& after.mru@.len() > 0 && after.mru@[0] == f
                &&& before.active != Some(f) ==> after.prev == before.active
                &&& before.active == Some(f) ==> after.prev == before.prev
            },
            None => after.active == before.active && after.prev == before.prev && after.mru@
                == before.mru@,
        },
{
    if let Some(f) = data.front_window {
        recency_laws::law_touched_comes_first(before.mru@, f);
    }
}

/// The first entry of an opened overlay: the previous window if it is listed;
/// else the second most recent one if it is listed; else the active one.
pub proof fn law_first_entry_is_the_window_to_go_to(
    before: Core,
    after: Core,
    data: ShowData,
    screen_w: i32,
    screen_h: i32,
    cfg: &Config,
    first: u32,
)
    requires
        overlay::opens(before, after, data, screen_w, screen_h, cfg),
        exists|i: int| 0 <= i < data.items@.len() && (#[trigger] data.items@[i]).id == first,
        ({
            ||| after.prev == Some(first)
            ||| {
                &&& after.prev matches Some(p) ==> forall|i: int|
                    0 <= i < data.items@.len() ==> (#[trigger] data.items@[i]).id != p
                &&& {
                    ||| after.mru@.len() > 1 && after.mru@[1] == first
                    ||| {
                        &&& after.mru@.len() > 1 ==> forall|i: int|
                            0 <= i < data.items@.len() ==> (#[trigger] data.items@[i]).id
                                != after.mru@[1]
                        &&& after.active == Some(first)
                    }
                }
            }
        }),
    ensures
        after.items@.len() > 0,
        after.items@[0].id == first,
        !data.backwards ==> after.selection == 0,
{
    let start = overlay::start_window(data.items@, after.prev, after.mru@, after.active);
    assert(recency::has_window(data.items@, first));
    assert(start == Some(first));
    recency_laws::law_selected_window_comes_first(
        data.items@,
        after.items@,
        after.mru@,
        first,
        after.active,
    );
}

/// The entries behind the first one are ordered by recency, the active window
/// before the others.
pub proof fn law_opened_overlay_is_ordered_by_recency(
    before: Core,
    after: Core,
    data: ShowData,
    screen_w: i32,
    screen_h: i32,
    cfg: &Config,
    p: int,
    q: int,
    a: int,
    b: int,
)
    requires
        overlay::opens(before, after, data, screen_w, screen_h, cfg),
        after.mru@.no_duplicates(),
        0 <= p < q < after.mru@.len(),
        0 <= a < after.items@.len(),
        0 <= b < after.items@.len(),
        after.items@[a].id == after.mru@[p],
        after.items@[b].id == after.mru@[q],
        after.items@[0].id != after.mru@[p],
        after.items@[0].id != after.mru@[q],
        after.active != Some(after.mru@[q]),
    ensures
        a < b,
{
    let start = overlay::start_window(data.items@, after.prev, after.mru@, after.active);
    let order = recency::priority(after.mru@, start, after.active);
    recency_laws::law_ordering_keeps_the_entries(data.items@, after.items@, order);
    if let Some(s) = start {
        if s == after.mru@[p] || s == after.mru@[q] {
            let k = if s == after.mru@[p] {
                a
            } else {
                b
            };
            recency_laws::lemma_same_entries(data.items@, after.items@, k);
            assert(recency::has_window(data.items@, s));
            recency_laws::law_selected_window_comes_first(
                data.items@,
                after.items@,
                after.mru@,
                s,
                after.active,
            );
        }
    }
    if after.active == Some(after.mru@[p]) {
        recency_laws::law_selected_and_active_come_before_the_rest(
            data.items@,
            after.items@,
            after.mru@,
            start,
            after.active,
            a,
            b,
        );
    } else {
        recency_laws::law_later_used_windows_come_first(
            data.items@,
            after.items@,
            after.mru@,
            start,
            after.active,
            p,
            q,
            a,
            b,
        );
    }
}

/// An opened overlay is visible, with nothing under the pointer, no tap pending
/// and its thumbnails asked for; the windows it shows join those whose
/// thumbnails are kept.
pub proof fn law_opened_overlay_is_ready(
    before: Core,
    after: Core,
    data: ShowData,
    screen_w: i32,
    screen_h: i32,
    cfg: &Config,
    i: int,
)
    requires
        overlay::opens(before, after, data, screen_w, screen_h, cfg),
        0 <= i < data.items@.len(),
    ensures
        after.visible,
        after.hover is None,
        !after.quick_pending,
        !after.quick_show_dispatched,
        after.refresh_all,
        after.tracked_ids@.contains(data.items@[i].id),
        forall|id: u32| before.tracked_ids@.contains(id) ==> #[trigger] after.tracked_ids@.contains(id),
        after.mode == before.mode,
        after.tags == before.tags,
        after.layout matches Some(l) && l.lays_out(after.items@, screen_w, screen_h, cfg),
{
    assert(recency::has_window(data.items@, data.items@[i].id));
    assert(after.tracked_ids@.contains(data.items@[i].id));
}

/// Windows that were asked for while the command key had to be held come in time
/// exactly if it still is, and if the same switcher is still wanted.
pub proof fn law_windows_come_in_time(core: Core, data: ShowData)
    ensures
        core.cmd_held && core.mode == data.mode ==> !overlay::too_late(core, data),
        !data.require_cmd_held && core.mode == data.mode ==> !overlay::too_late(core, data),
        data.require_cmd_held && !core.cmd_held ==> overlay::too_late(core, data),
        core.mode != data.mode ==> overlay::too_late(core, data),
{
}

// ---------- focus ----------

/// The window in front is the focused one if it is listed.
pub proof fn law_focused_window_is_in_front(
    items: Seq<Item>,
    focused: u32,
    front_pid: Option<i32>,
    i: int,
)
    requires
        0 <= i < items.len(),
        items[i].id == focused,
    ensures
        overlay::front_of(items, Some(focused), front_pid) == Some(focused),
{
}

/// If the focused window is not known or not listed, the window in front is the
/// focused app's first listed one.
pub proof fn law_focused_app_is_in_front(
    items: Seq<Item>,
    focused: Option<u32>,
    pid: i32,
    i: int,
)
    requires
        0 <= i < items.len(),
        items[i].pid == pid,
        forall|k: int| 0 <= k < i ==> (#[trigger] items[k]).pid != pid,
        focused matches Some(f) ==> forall|k: int|
            0 <= k < items.len() ==> (#[trigger] items[k]).id != f,
    ensures
        overlay::front_of(items, focused, Some(pid)) == Some(items[i].id),
{
    recency_laws::law_first_window_of_an_app(items, pid, i);
}

/// Within 0.2 seconds after a switch of its own the switcher takes the window
/// that it switched to for the current one, wherever the focus is; later the
/// focused window counts, if it is listed.
pub proof fn law_current_window(
    app: AppInner,
    items: Seq<Item>,
    focus: Option<Focus>,
    active: u32,
    switched_at: u64,
    now: u64,
    i: int,
)
    requires
        app.last_activate == Some(switched_at),
        0 <= i < items.len(),
    ensures
        now < switched_at + 200_000_000 && items[i].id == active ==> overlay::current_window(
            items,
            focus,
            Some(active),
            app.just_switched(now),
        ) == active,
        now >= switched_at + 200_000_000 ==> (focus matches Some(f) ==> f.window_id == Some(
            items[i].id,
        ) ==> overlay::current_window(items, focus, Some(active), app.just_switched(now))
            == items[i].id),
{
}

/// The switcher works on the display of the focused window, or on the one with
/// the pointer when that is not known.
pub proof fn law_display_follows_the_focus(focus: Focus, cursor: u32)
    ensures
        focus.display_id matches Some(d) ==> overlay::display_of(Some(focus), cursor) == d,
        focus.display_id is None ==> overlay::display_of(Some(focus), cursor) == cursor,
        overlay::display_of(None, cursor) == cursor,
{
}

/// When the list gets shorter the selection stays where it is as long as it can,
/// and else goes to the last entry.
pub proof fn law_selection_stays_in_the_list(selection: usize, n: nat)
    requires
        n <= usize::MAX,
    ensures
        selection < n ==> overlay::clamp_selection(selection, n) == selection,
        selection >= n && n > 0 ==> overlay::clamp_selection(selection, n) == n - 1,
        n == 0 ==> overlay::clamp_selection(selection, n) == 0,
{
}

// ---------- switching, in detail ----------

/// A switch remembers where one came from: the window that was active becomes
/// the previous one, unless it is the very window that is switched to. Only the
/// recent windows of the mode one is in change.
pub proof fn law_switch_remembers_where_one_came_from(
    app: AppInner,
    app_after: AppInner,
    core: Core,
    core_after: Core,
    idx: usize,
    now: u64,
    step: Step,
)
    requires
        idx < core.items@.len(),
        commands::activates(app, app_after, core, core_after, idx, now, step),
    ensures
        core.active != Some(core.items@[idx as int].id) ==> core_after.prev == core.active,
        core.active == Some(core.items@[idx as int].id) ==> core_after.prev == core.prev,
        core_after.mode == core.mode,
        core.mode is Space ==> core_after.mru_space@ == core_after.mru@ && core_after.mru_app
            == core.mru_app,
        core.mode is App ==> core_after.mru_app@ == core_after.mru@ && core_after.mru_space
            == core.mru_space,
        core.mru@.no_duplicates() ==> core_after.mru@.drop_first() == core.mru@.filter(
            |x: u32| x != core.items@[idx as int].id,
        ),
        core_after.tags == core.tags,
        app_after.last_activate == Some(now),
        app.activation_gen < u64::MAX ==> app_after.activation_gen == app.activation_gen + 1,
        step matches Step::Switch(s) && s.gen == app_after.activation_gen && (core.visible
            <==> s.hidden is Some) && (s.hidden matches Some(h) ==> h.restore is None),
{
    if core.mru@.no_duplicates() {
        recency_laws::law_touching_keeps_the_rest(core.mru@, core.items@[idx as int].id);
    }
}

/// Closing the overlay keeps the recent windows of its mode, and those only.
pub proof fn law_closing_keeps_the_recent_windows(before: Core, after: Core)
    requires
        before.visible,
        overlay::closes(before, after),
    ensures
        !after.visible,
        after.hover is None,
        before.mode is Space ==> after.mru_space@ == before.mru@ && after.mru_app == before.mru_app,
        before.mode is App ==> after.mru_app@ == before.mru@ && after.mru_space == before.mru_space,
        after.items == before.items,
        after.selection == before.selection,
{
}

/// What a mode's switcher remembers is what it starts with the next time.
pub proof fn law_each_mode_has_its_own_recent_windows(before: Core, after: Core)
    requires
        before.visible,
        overlay::closes(before, after),
    ensures
        overlay::recent_of(after, before.mode) == before.mru@,
        forall|m: Mode|
            m != before.mode ==> #[trigger] overlay::recent_of(after, m) == overlay::recent_of(
                before,
                m,
            ),
        overlay::recent_of(before, Mode::Space) == before.mru_space@,
        overlay::recent_of(before, Mode::App) == before.mru_app@,
{
}

/// A quick tap goes from the focused window to the one that was active before
/// it, and records that: the second becomes the active window, the first the
/// previous one. Where the switcher's record of the active window is out of
/// date, the recorded window is the one to go back to.
pub proof fn law_quick_tap_goes_back(
    app: AppInner,
    app_after: AppInner,
    core: Core,
    core_after: Core,
    mode: Mode,
    focus: Focus,
    now: u64,
    switch: Option<Switch>,
    from: u32,
    to: u32,
    i: int,
    j: int,
)
    requires
        overlay::quick_switched(
            app,
            app_after,
            core,
            core_after,
            mode,
            Some(focus),
            now,
            switch,
        ),
        0 <= i < app.quick_items().len(),
        0 <= j < app.quick_items().len(),
        app.quick_items()[i].id == from,
        app.quick_items()[j].id == to,
        from != to,
        focus.window_id == Some(from),
        app.last_activate matches Some(t) ==> now >= t + 200_000_000,
        (core.active == Some(from) && core.prev == Some(to)) || core.active == Some(to),
    ensures
        switch matches Some(s) && s.item.id == to,
        core_after.active == Some(to),
        core_after.prev == Some(from),
        core_after.mode == mode,
        core_after.mru@.len() > 1,
        core_after.mru@[0] == to,
        core_after.mru@[1] == from,
        !core_after.visible,
{
    let items = app.quick_items();
    assert(recency::has_window(items, from) && recency::has_window(items, to));
    assert(recency::target_of(items, from, Some(to)) == Some(to));
    recency::lemma_first_such(items, |i: Item| i.id == to);
    let recent = overlay::recent_of(core, mode);
    let once = recency::touched(recent, from);
    recency_laws::law_touched_comes_first(recent, from);
    recency_laws::law_touched_comes_first(once, to);
    once.index_of_first_ensures(to);
    if once.contains(to) {
        let p = once.index_of_first(to)->0;
        assert(p > 0);
        assert(once.remove(p)[0] == once[0]);
    }
}

/// Without a record of earlier windows a quick tap goes to the first listed
/// window that does not have the focus.
pub proof fn law_quick_tap_without_history(
    app: AppInner,
    app_after: AppInner,
    core: Core,
    core_after: Core,
    mode: Mode,
    focus: Focus,
    now: u64,
    switch: Option<Switch>,
    i: int,
    j: int,
)
    requires
        overlay::quick_switched(
            app,
            app_after,
            core,
            core_after,
            mode,
            Some(focus),
            now,
            switch,
        ),
        core.active is None,
        0 <= i < app.quick_items().len(),
        focus.window_id == Some(app.quick_items()[i].id),
        0 <= j < app.quick_items().len(),
        app.quick_items()[j].id != app.quick_items()[i].id,
        forall|k: int|
            0 <= k < j ==> (#[trigger] app.quick_items()[k]).id == app.quick_items()[i].id,
    ensures
        switch matches Some(s) && s.item.id == app.quick_items()[j].id,
        core_after.active == Some(app.quick_items()[j].id),
        core_after.prev == Some(app.quick_items()[i].id),
{
    let items = app.quick_items();
    let from = items[i].id;
    assert(recency::has_window(items, from));
    recency_laws::law_quick_switch_falls_back_to_the_first_other_window(items, from, None, j);
    let to = items[j].id;
    recency::lemma_first_such(items, |i: Item| i.id == to);
}

/// With no other window there is nothing to switch to.
pub proof fn law_quick_tap_needs_another_window(
    app: AppInner,
    app_after: AppInner,
    core: Core,
    core_after: Core,
    mode: Mode,
    focus: Option<Focus>,
    now: u64,
    switch: Option<Switch>,
)
    requires
        overlay::quick_switched(app, app_after, core, core_after, mode, focus, now, switch),
        app.quick_items().len() <= 1,
    ensures
        switch is None,
        app_after == app,
{
    let items = app.quick_items();
    if items.len() == 1 {
        let current = overlay::current_window(
            items,
            focus,
            core.active,
            app.just_switched(now),
        );
        let prev = overlay::window_before(core.active, core.prev, current);
        recency_laws::law_target_is_another_window(items, current, prev);
        if let Some(f) = focus {
            recency::lemma_first_such(items, |i: Item| i.pid == f.pid);
        }
        assert(current == items[0].id);
    }
}

// ---------- commands and the mouse, in detail ----------

/// Cancelling closes the overlay and brings back the app that was in front.
pub proof fn law_cancel_brings_the_app_back(
    app: AppInner,
    app_after: AppInner,
    core: Core,
    core_after: Core,
    now: u64,
    step: Step,
)
    requires
        core.visible,
        commands::commanded(app, app_after, core, core_after, MainCmd::Hide, now, step),
    ensures
        !core_after.visible,
        core_after.active == core.active,
        step matches Step::Hidden(h) && h.restore == app.prev_app_pid && h.order_out
            == app.initialized,
        app_after.prev_app_pid is None,
        app_after.scroll_acc == 0,
{
}

/// Showing leads to a look-up of the windows of the same mode, forwards or
/// backwards; backwards the command key always has to be held.
pub proof fn law_show_commands(
    app: AppInner,
    app_after: AppInner,
    core: Core,
    core_after: Core,
    mode: Mode,
    held: bool,
    backwards: bool,
    now: u64,
    step: Step,
)
    requires
        commands::commanded(
            app,
            app_after,
            core,
            core_after,
            if backwards {
                MainCmd::ShowBackwards(mode)
            } else {
                MainCmd::Show(mode, held)
            },
            now,
            step,
        ),
    ensures
        step == Step::Show(mode, held || backwards, backwards),
        core_after == core,
        app_after == app,
{
}

/// Hovering: when the pointer comes onto a card, going by the card's edges, that
/// card is selected; when it leaves the cards the selection stays.
pub proof fn law_hover_selects_the_card_under_the_pointer(
    app: AppInner,
    app_after: AppInner,
    core: Core,
    core_after: Core,
    x: i64,
    y: i64,
    now: u64,
    step: Step,
    grid: Layout,
    screen_w: i32,
    screen_h: i32,
    cfg: &Config,
    i: int,
)
    requires
        core.wf(),
        core.layout == Some(grid),
        grid.lays_out(core.items@, screen_w, screen_h, cfg),
        commands::mouse_handled(app, app_after, core, core_after, Mouse::Moved(x, y), now, step),
        0 <= i < core.items@.len(),
        core.hover is None || core.hover->0 != i,
    ensures
        ({
            let t = grid.rects@[i].thumb;
            t.x <= x <= t.x + t.w && t.y <= y <= t.y + t.h ==> {
                &&& core_after.selection == i
                &&& core_after.hover is Some && core_after.hover->0 == i
                &&& step is Redraw
            }
        }),
        (forall|k: int|
            0 <= k < core.items@.len() ==> {
                let t = (#[trigger] grid.rects@[k]).thumb;
                !(t.x <= x <= t.x + t.w && t.y <= y <= t.y + t.h)
            }) ==> core_after.selection == core.selection && core_after.hover is None,
        core_after.active == core.active,
        core_after.visible == core.visible,
{
    let hit = choose|hit: Option<usize>| #[trigger]
        commands::hits(core, x, y, hit) && core_after == commands::hovered(core, hit) && app_after
            == app && step == (if core.hover == hit {
            Step::Nothing
        } else {
            Step::Redraw
        });
    assert(grid.hits(x as int, y as int, hit));
    let t = grid.rects@[i].thumb;
    if t.x <= x <= t.x + t.w && t.y <= y <= t.y + t.h {
        layout_laws::law_point_is_on_the_card_around_it(grid, x as int, y as int, hit, i);
        let f = hit->0 as int;
        assert(grid.rects@[f].thumb.covers(x as int, y as int));
        layout_laws::law_hit_is_unambiguous(
            grid,
            core.items@,
            screen_w,
            screen_h,
            cfg,
            x as int,
            y as int,
            f,
            i,
        );
    }
    if let Some(f) = hit {
        layout_laws::law_point_is_on_the_card_around_it(grid, x as int, y as int, hit, f as int);
        assert(grid.rects@[f as int].thumb.covers(x as int, y as int));
    }
}

/// Clicking next to all cards cancels: the overlay closes and the app that was
/// in front comes back.
pub proof fn law_click_beside_the_cards_cancels(
    app: AppInner,
    app_after: AppInner,
    core: Core,
    core_after: Core,
    x: i64,
    y: i64,
    now: u64,
    step: Step,
    grid: Layout,
)
    requires
        core.visible,
        core.layout == Some(grid),
        commands::mouse_handled(app, app_after, core, core_after, Mouse::Down(x, y), now, step),
        forall|k: int|
            0 <= k < grid.rects@.len() ==> {
                let t = (#[trigger] grid.rects@[k]).thumb;
                !(t.x <= x <= t.x + t.w && t.y <= y <= t.y + t.h)
            },
    ensures
        !core_after.visible,
        core_after.active == core.active,
        step matches Step::Hidden(h) && h.restore == app.prev_app_pid,
{
    let hit = choose|hit: Option<usize>| #[trigger]
        commands::hits(core, x, y, hit) && match hit {
            Some(i) => commands::activates(app, app_after, core, core_after, i, now, step),
            None => {
                &&& step == commands::hide_step(app, core, true)
                &&& app_after == commands::app_closed(app, core)
                &&& overlay::closes(core, core_after)
            },
        };
    assert(grid.hits(x as int, y as int, hit));
    if let Some(f) = hit {
        assert(grid.rects@[f as int].thumb.covers(x as int, y as int));
        assert(false);
    }
}

/// Scrolling adds up until it makes 15 points; then scrolling up goes to the
/// previous entry and scrolling down to the next one, and the count starts
/// anew.
pub proof fn law_scrolling_steps_through_the_list(
    app: AppInner,
    app_after: AppInner,
    core: Core,
    core_after: Core,
    dy: i32,
    now: u64,
    step: Step,
)
    requires
        core.wf(),
        core.items@.len() > 0,
        commands::mouse_handled(app, app_after, core, core_after, Mouse::Scroll(dy), now, step),
    ensures
        -15_000 < app.scroll_acc + dy < 15_000 ==> app_after.scroll_acc == app.scroll_acc + dy
            && core_after == core,
        app.scroll_acc + dy >= 15_000 ==> app_after.scroll_acc == 0 && core_after.selection == (
        if core.selection > 0 {
            core.selection - 1
        } else {
            core.items@.len() - 1
        }),
        app.scroll_acc + dy <= -15_000 ==> app_after.scroll_acc == 0 && core_after.selection == (
        if core.selection + 1 < core.items@.len() {
            core.selection + 1
        } else {
            0
        }),
        core_after == (Core { selection: core_after.selection, ..core }),
{
    tap_laws::law_selection_walks_in_a_circle(core);
}

/// A hint is seen for two seconds: until then it is drawn and no tick ends it,
/// and from then on it is not drawn and the next tick ends it.
pub proof fn law_hint_lasts_two_seconds(
    before: AppInner,
    after: AppInner,
    text: Seq<char>,
    shown_at: u64,
    now: u64,
)
    requires
        tags::hints(before, after, text, shown_at),
        shown_at + 2_000_000_000 <= u64::MAX,
    ensures
        after.hint matches Some(h) && h.text@ == text,
        render::hint_shown(after, now) <==> now < shown_at + 2_000_000_000,
        after.hint_over(now) <==> now >= shown_at + 2_000_000_000,
{
}

/// While the overlay is up its display is checked for a desktop switch every
/// half a second, and while it is closed never.
pub proof fn law_desktop_is_checked_twice_a_second(app: AppInner, core: Core, now: u64)
    requires
        app.display_id != 0,
    ensures
        app.check_due(core, now) <==> core.visible && now >= app.last_fingerprint + 500_000_000,
{
}

/// A card is drawn with an image of the thumbnail that is cached now: an image
/// of another generation is never used, and without a thumbnail there is none.
pub proof fn law_image_shows_the_current_thumbnail(
    drawn: Map<u32, overlay::Drawn>,
    thumbs: Map<u32, capture::Thumb>,
    id: u32,
)
    ensures
        match commands::image_of(drawn, thumbs, id) {
            commands::ImagePlan::Missing => !thumbs.contains_key(id),
            commands::ImagePlan::Use(image) => {
                &&& thumbs.contains_key(id) && drawn.contains_key(id)
                &&& drawn[id].gen == thumbs[id].gen
                &&& image == drawn[id].image
            },
            commands::ImagePlan::Build(image, gen) => {
                &&& thumbs.contains_key(id)
                &&& image == thumbs[id].image
                &&& gen == thumbs[id].gen
            },
        },
{
}

/// After a window was captured again its card is not drawn with the image that
/// was built before.
pub proof fn law_new_capture_is_drawn(
    drawn: Map<u32, overlay::Drawn>,
    thumbs: Map<u32, capture::Thumb>,
    id: u32,
    image: u64,
    now: u64,
)
    requires
        drawn.contains_key(id),
    ensures
        commands::image_of(
            drawn,
            capture::stored(thumbs, drawn[id].gen, id, image, now),
            id,
        ) matches commands::ImagePlan::Build(i, _) && i == image,
{
}

/// A report that a thumbnail changed drops the image that was built from the old
/// one, releases it, and has the overlay drawn again.
pub proof fn law_changed_thumbnail_drops_its_image(
    app: AppInner,
    app_after: AppInner,
    core: Core,
    core_after: Core,
    id: u32,
    now: u64,
    step: Step,
)
    requires
        commands::commanded(
            app,
            app_after,
            core,
            core_after,
            MainCmd::ThumbUpdated(id),
            now,
            step,
        ),
    ensures
        !app_after.thumb_ns@.contains_key(id),
        app_after.thumb_dirty,
        forall|other: u32|
            other != id && app.thumb_ns@.contains_key(other)
                ==> #[trigger] app_after.thumb_ns@.contains_key(other),
        app.thumb_ns@.contains_key(id) ==> step == Step::Release(Some(app.thumb_ns@[id].image)),
        core_after == core,
{
}

/// A window list is used again by quick switches of the same mode on the same
/// display, for 0.3 seconds.
pub proof fn law_window_list_is_reused_for_a_moment(
    app: AppInner,
    cached: overlay::CollectCache,
    mode: Mode,
    display_id: u32,
    now: u64,
)
    requires
        app.collect_cache == Some(cached),
    ensures
        app.cache_is_fresh(mode, display_id, now) <==> cached.mode == mode && cached.display_id
            == display_id && now < cached.at + 300_000_000,
{
}

/// Unused images are dropped once a second.
pub proof fn law_unused_images_are_dropped_every_second(app: AppInner, now: u64)
    ensures
        app.garbage_due(now) <==> now >= app.last_gc + 1_000_000_000,
{
}

/// Without a grid the arrow keys do not move the selection; along the list it
/// moves all the same.
pub proof fn law_steps_without_a_grid(core: Core, dir: Dir, to: usize)
    requires
        core.wf(),
        core.items@.len() > 0,
        core.layout is None,
        core.steps_to(dir, to),
    ensures
        dir is Next ==> to == (if core.selection + 1 < core.items@.len() {
            core.selection + 1
        } else {
            0
        }),
        dir is Prev ==> to == (if core.selection > 0 {
            core.selection - 1
        } else {
            core.items@.len() - 1
        }),
        !(dir is Next) && !(dir is Prev) ==> to == core.selection,
{
    tap_laws::law_selection_walks_in_a_circle(core);
}

} // verus!
