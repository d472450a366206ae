//! Laws of the event tap: how presses, releases and the quick-tap timer work
//! together.

use crate::config::Config;
use crate::keys;
use crate::layout::{Dir, Layout};
use crate::layout_laws;
use crate::state;
use crate::state::{Core, MainCmd, Mode};
use crate::tap;
use crate::tap::{TapCtx, TapResult};
use vstd::prelude::*;

verus! {

/// Stepping forward and then back returns to the same entry, and so does
/// stepping back and then forward.
pub proof fn law_selection_steps_undo(core: Core)
    requires
        core.wf(),
        core.items@.len() > 0,
    ensures
        (Core { selection: core.next_selection(), ..core }).prev_selection() == core.selection,
        (Core { selection: core.prev_selection(), ..core }).next_selection() == core.selection,
{
    let n = core.items@.len() as int;
    let s = core.selection as int;
    assert(core.items.len() == core.items@.len());
    if s + 1 < n {
        vstd::arithmetic::div_mod::lemma_small_mod((s + 1) as nat, n as nat);
        vstd::arithmetic::div_mod::lemma_mod_add_multiples_vanish(s, n);
        vstd::arithmetic::div_mod::lemma_small_mod(s as nat, n as nat);
    } else {
        vstd::arithmetic::div_mod::lemma_mod_self_0(n);
        vstd::arithmetic::div_mod::lemma_small_mod((n - 1) as nat, n as nat);
    }
    if s > 0 {
        vstd::arithmetic::div_mod::lemma_mod_add_multiples_vanish(s - 1, n);
        vstd::arithmetic::div_mod::lemma_small_mod((s - 1) as nat, n as nat);
        vstd::arithmetic::div_mod::lemma_small_mod(s as nat, n as nat);
    } else {
        vstd::arithmetic::div_mod::lemma_small_mod((n - 1) as nat, n as nat);
        vstd::arithmetic::div_mod::lemma_mod_self_0(n);
    }
}

/// Modifier changes are never swallowed, so other apps always see them.
pub proof fn law_modifiers_are_never_swallowed(
    before: TapCtx,
    after: TapCtx,
    core: Core,
    core_after: Core,
    keycode: u16,
    flags: u64,
    now: u64,
    result: TapResult,
)
    requires
        TapCtx::handles(
            before,
            after,
            core,
            core_after,
            keys::EVENT_FLAGS_CHANGED,
            keycode,
            flags,
            now,
            result,
        ),
    ensures
        !result.swallow,
{
}

/// While the overlay is up no key press reaches the app underneath.
pub proof fn law_overlay_swallows_every_key(
    before: TapCtx,
    after: TapCtx,
    core: Core,
    core_after: Core,
    keycode: u16,
    flags: u64,
    now: u64,
    result: TapResult,
)
    requires
        core.visible,
        TapCtx::handles(
            before,
            after,
            core,
            core_after,
            keys::EVENT_KEY_DOWN,
            keycode,
            flags,
            now,
            result,
        ),
    ensures
        result.swallow,
{
}

/// While the overlay is hidden, a key press without the command key passes and
/// changes nothing.
pub proof fn law_plain_typing_is_untouched(
    before: TapCtx,
    after: TapCtx,
    core: Core,
    core_after: Core,
    keycode: u16,
    flags: u64,
    now: u64,
    result: TapResult,
)
    requires
        !core.visible,
        !tap::has_command(flags),
        TapCtx::handles(
            before,
            after,
            core,
            core_after,
            keys::EVENT_KEY_DOWN,
            keycode,
            flags,
            now,
            result,
        ),
    ensures
        !result.swallow,
        result.cmd is None,
        core_after == core,
        after == before,
{
    lemma_masked_command(flags);
}

/// Modifiers that are exactly a hotkey's include the command key.
proof fn lemma_masked_command(flags: u64)
    requires
        !tap::has_command(flags),
    ensures
        flags & keys::MOD_MASK != keys::FLAG_COMMAND,
        flags & keys::MOD_MASK != keys::FLAG_COMMAND | keys::FLAG_SHIFT,
{
    assert(flags & 0x0010_0000u64 != 0x0010_0000u64 ==> flags & 0x001e_0000u64 != 0x0010_0000u64)
        by (bit_vector);
    assert(flags & 0x0010_0000u64 != 0x0010_0000u64 ==> flags & 0x001e_0000u64 != 0x0010_0000u64
        | 0x0002_0000u64) by (bit_vector);
}

/// Releasing the command key gives exactly one command: the next change of the
/// modifiers, as long as the command key stays up, gives none.
pub proof fn law_release_acts_once(
    first: TapCtx,
    second: TapCtx,
    third: TapCtx,
    core1: Core,
    core2: Core,
    core3: Core,
    flags1: u64,
    flags2: u64,
    result1: TapResult,
    result2: TapResult,
)
    requires
        first.releases_command(flags1),
        TapCtx::flags_changed(first, second, core1, core2, flags1, result1),
        TapCtx::flags_changed(second, third, core2, core3, flags2, result2),
    ensures
        result1.cmd is Some,
        result2.cmd is None,
{
    assert((flags1 & 0x001e_0000u64) & 0x0010_0000u64 == flags1 & 0x0010_0000u64) by (bit_vector);
}

/// Pressing the hotkey again while its tap is pending changes nothing: the
/// deadline is the one of the first press.
pub proof fn law_repeated_press_keeps_deadline(core: Core, mode: Mode, first: u64, second: u64)
    ensures
        tap::armed(tap::armed(core, mode, first), mode, second) == tap::armed(core, mode, first),
{
}

/// While the overlay is loading no press arms another tap.
pub proof fn law_loading_is_not_rearmed(core: Core, mode: Mode, now: u64)
    requires
        core.quick_show_dispatched,
    ensures
        tap::armed(core, mode, now) == core,
{
}

/// The timer shows the overlay at most once for a pending tap: having fired,
/// it does not fire again while the overlay is loading.
pub proof fn law_timer_fires_once(core: Core, first: u64, second: u64)
    requires
        tap::hold_detected(core, first),
    ensures
        !tap::hold_detected(Core { quick_show_dispatched: true, ..core }, second),
{
}

/// The timer never shows the overlay after the command key has been released.
pub proof fn law_no_show_after_release(
    before: TapCtx,
    after: TapCtx,
    core: Core,
    core_after: Core,
    flags: u64,
    now: u64,
    result: TapResult,
)
    requires
        before.releases_command(flags),
        TapCtx::flags_changed(before, after, core, core_after, flags, result),
    ensures
        !tap::hold_detected(core_after, now),
{
}

/// However the last gesture went, also when the command key was released while
/// the overlay was still loading: the next press of the hotkey arms a new tap.
pub proof fn law_release_frees_the_hotkey(
    before: TapCtx,
    after: TapCtx,
    core: Core,
    core_after: Core,
    flags: u64,
    result: TapResult,
    mode: Mode,
    now: u64,
)
    requires
        before.releases_command(flags),
        TapCtx::flags_changed(before, after, core, core_after, flags, result),
    ensures
        tap::armed(core_after, mode, now).quick_pending,
        tap::armed(core_after, mode, now).quick_mode == mode,
        !tap::armed(core_after, mode, now).quick_show_dispatched,
        tap::armed(core_after, mode, now).quick_deadline == state::later(
            now,
            core.quick_delay_ms,
        ),
{
}

/// A quick tap: the hotkey is pressed, no tap was pending and no overlay was
/// loading. Until the delay is over the timer does nothing, and releasing the
/// command key then switches to the previous window without an overlay.
pub proof fn law_quick_tap_switches(
    core: Core,
    mode: Mode,
    pressed: u64,
    polled: u64,
    before: TapCtx,
    after: TapCtx,
    core_after: Core,
    flags: u64,
    result: TapResult,
)
    requires
        !core.quick_pending,
        !core.quick_show_dispatched,
        polled < state::later(pressed, core.quick_delay_ms),
        before.releases_command(flags),
        TapCtx::flags_changed(
            before,
            after,
            tap::armed(core, mode, pressed),
            core_after,
            flags,
            result,
        ),
    ensures
        !tap::hold_detected(tap::armed(core, mode, pressed), polled),
        result.cmd == Some(MainCmd::QuickSwitch(mode)),
        !core_after.quick_pending,
{
}

/// A tap that is released while the overlay is still loading switches too.
pub proof fn law_slow_tap_switches(
    core: Core,
    before: TapCtx,
    after: TapCtx,
    core_after: Core,
    flags: u64,
    result: TapResult,
)
    requires
        core.quick_pending,
        core.quick_show_dispatched,
        before.releases_command(flags),
        TapCtx::flags_changed(before, after, core, core_after, flags, result),
    ensures
        result.cmd == Some(MainCmd::QuickSwitch(core.quick_mode)),
{
}

/// Holding the command key until the delay is over shows the overlay.
pub proof fn law_hold_shows(core: Core, mode: Mode, pressed: u64, polled: u64)
    requires
        core.cmd_held,
        !core.quick_pending,
        !core.quick_show_dispatched,
        polled >= state::later(pressed, core.quick_delay_ms),
    ensures
        tap::hold_detected(tap::armed(core, mode, pressed), polled),
        tap::armed(core, mode, pressed).quick_mode == mode,
{
}

/// Releasing the command key on the visible overlay switches to the selected
/// window.
pub proof fn law_release_activates_selection(
    before: TapCtx,
    after: TapCtx,
    core: Core,
    core_after: Core,
    flags: u64,
    result: TapResult,
)
    requires
        core.visible,
        !core.quick_pending,
        before.releases_command(flags),
        TapCtx::flags_changed(before, after, core, core_after, flags, result),
    ensures
        result.cmd == Some(MainCmd::Activate(core.selection)),
{
}

/// A tag hotkey cancels a pending tap: the timer does not show the overlay any
/// more, and releasing the command key does not switch to the previous window.
pub proof fn law_tag_hotkey_cancels_tap(
    first: TapCtx,
    second: TapCtx,
    third: TapCtx,
    core1: Core,
    core2: Core,
    core3: Core,
    keycode: u16,
    flags1: u64,
    flags2: u64,
    now: u64,
    later: u64,
    result1: TapResult,
    result2: TapResult,
)
    requires
        TapCtx::key(core1, keycode, flags1) is Tag,
        TapCtx::key_down(first, second, core1, core2, keycode, flags1, now, result1),
        TapCtx::flags_changed(second, third, core2, core3, flags2, result2),
    ensures
        !tap::hold_detected(core2, later),
        !(result2.cmd matches Some(MainCmd::QuickSwitch(_))),
{
}

/// Pressing the tag key twice in time toggles the selected window's tag once:
/// the first press only shows a hint, and so does a third one.
pub proof fn law_double_press_toggles_once(
    tap0: TapCtx,
    tap1: TapCtx,
    tap2: TapCtx,
    tap3: TapCtx,
    core: Core,
    t1: u64,
    t2: u64,
    t3: u64,
    cmd1: Option<MainCmd>,
    cmd2: Option<MainCmd>,
    cmd3: Option<MainCmd>,
)
    requires
        tap0.last_p_press is None,
        core.selection < core.items@.len(),
        state::elapsed(t2, t1) <= state::DOUBLE_P_MS * 1_000_000,
        TapCtx::tag_key_pressed(tap0, tap1, core, t1, cmd1),
        TapCtx::tag_key_pressed(tap1, tap2, core, t2, cmd2),
        TapCtx::tag_key_pressed(tap2, tap3, core, t3, cmd3),
    ensures
        cmd1 matches Some(MainCmd::TagHint(_)),
        cmd2 == Some(MainCmd::ToggleTag(core.items@[core.selection as int].id)),
        cmd3 matches Some(MainCmd::TagHint(_)),
{
}

// ---------- the keys, one by one ----------

/// The selection one entry on and one entry back, in a circle.
pub proof fn law_selection_walks_in_a_circle(core: Core)
    requires
        core.wf(),
        core.items@.len() > 0,
    ensures
        core.next_selection() == (if core.selection + 1 < core.items@.len() {
            core.selection + 1
        } else {
            0
        }),
        core.prev_selection() == (if core.selection > 0 {
            core.selection - 1
        } else {
            core.items@.len() - 1
        }),
{
    assert(core.items.len() == core.items@.len());
    layout_laws::lemma_turn(core.selection as int, core.items@.len() as int);
}

/// Moving through the grid: on the visible overlay `h` and the left arrow step
/// to the left, `l` and the right arrow to the right, `k` and the up arrow into
/// the row above, `j` and the down arrow into the row below, whatever modifiers
/// are held. Nothing but the selection changes.
pub proof fn law_keys_step_through_the_grid(
    before: TapCtx,
    after: TapCtx,
    core: Core,
    core_after: Core,
    keycode: u16,
    flags: u64,
    now: u64,
    result: TapResult,
    grid: Layout,
)
    requires
        core.visible,
        core.items@.len() > 0,
        core.layout == Some(grid),
        TapCtx::handles(
            before,
            after,
            core,
            core_after,
            keys::EVENT_KEY_DOWN,
            keycode,
            flags,
            now,
            result,
        ),
    ensures
        keycode == keys::KEY_H || keycode == keys::KEY_LEFT_ARROW ==> grid.leads_to(
            core.selection,
            Dir::Left,
            core.wrap,
            core_after.selection,
        ),
        keycode == keys::KEY_L || keycode == keys::KEY_RIGHT_ARROW ==> grid.leads_to(
            core.selection,
            Dir::Right,
            core.wrap,
            core_after.selection,
        ),
        keycode == keys::KEY_K || keycode == keys::KEY_UP_ARROW ==> grid.leads_to(
            core.selection,
            Dir::Up,
            core.wrap,
            core_after.selection,
        ),
        keycode == keys::KEY_J || keycode == keys::KEY_DOWN_ARROW ==> grid.leads_to(
            core.selection,
            Dir::Down,
            core.wrap,
            core_after.selection,
        ),
        is_step_key(keycode) ==> {
            &&& core_after == (Core { selection: core_after.selection, ..core })
            &&& after == before
            &&& result.swallow
            &&& result.cmd == Some(MainCmd::Redraw)
        },
{
}

/// The codes of `h`, `j`, `k`, `l` and the arrow keys.
pub open spec fn is_step_key(keycode: u16) -> bool {
    ||| keycode == 4 || keycode == 38 || keycode == 40 || keycode == 37
    ||| keycode == 123 || keycode == 124 || keycode == 125 || keycode == 126
}

/// The selection moves where the key points: a key for up to a card that stands
/// higher, one for down to a lower card, and one for left or right to a card
/// further left or right in the same row, wherever there is such a card. The
/// key codes are those of the system.
pub proof fn law_selection_moves_where_the_key_points(
    before: TapCtx,
    after: TapCtx,
    core: Core,
    core_after: Core,
    keycode: u16,
    flags: u64,
    now: u64,
    result: TapResult,
    grid: Layout,
    screen_w: i32,
    screen_h: i32,
    cfg: &Config,
)
    requires
        core.wf(),
        core.visible,
        core.items@.len() > 0,
        core.layout == Some(grid),
        grid.lays_out(core.items@, screen_w, screen_h, cfg),
        TapCtx::handles(
            before,
            after,
            core,
            core_after,
            keys::EVENT_KEY_DOWN,
            keycode,
            flags,
            now,
            result,
        ),
    ensures
        ({
            let n = core.items@.len();
            let s = core.selection;
            let from = grid.rects@[s as int].thumb;
            let to = grid.rects@[core_after.selection as int].thumb;
            &&& keycode == 40 || keycode == 126 ==> ((exists|k: int|
                0 <= k < n && (#[trigger] grid.rects@[k]).thumb.y > from.y) ==> to.y > from.y)
            &&& keycode == 38 || keycode == 125 ==> ((exists|k: int|
                0 <= k < n && (#[trigger] grid.rects@[k]).thumb.y < from.y) ==> to.y < from.y)
            &&& keycode == 4 || keycode == 123 ==> to.y == from.y && (s > 0 && grid.rects@[s
                - 1].thumb.y == from.y ==> core_after.selection == s - 1 && to.x < from.x)
            &&& keycode == 37 || keycode == 124 ==> to.y == from.y && (s + 1 < n && grid.rects@[s
                + 1].thumb.y == from.y ==> core_after.selection == s + 1 && to.x > from.x)
        }),
{
    law_keys_step_through_the_grid(
        before,
        after,
        core,
        core_after,
        keycode,
        flags,
        now,
        result,
        grid,
    );
    let items = core.items@;
    let s = core.selection;
    let t = core_after.selection;
    if keycode == 40 || keycode == 126 {
        layout_laws::law_step_up(grid, items, screen_w, screen_h, cfg, s, core.wrap, t);
        layout_laws::law_cards_inside_margin(grid, items, screen_w, screen_h, cfg, s as int);
    }
    if keycode == 38 || keycode == 125 {
        layout_laws::law_step_down(grid, items, screen_w, screen_h, cfg, s, core.wrap, t);
        layout_laws::law_cards_inside_margin(grid, items, screen_w, screen_h, cfg, t as int);
    }
    if keycode == 4 || keycode == 123 {
        layout_laws::law_step_left(grid, items, screen_w, screen_h, cfg, s, core.wrap, t);
        if s > 0 {
            layout_laws::law_rows_are_filled_in_order(grid, items, screen_w, screen_h, cfg, s - 1);
            layout_laws::law_cards_inside_margin(grid, items, screen_w, screen_h, cfg, s - 1);
            layout_laws::law_cards_inside_margin(grid, items, screen_w, screen_h, cfg, s as int);
        }
    }
    if keycode == 37 || keycode == 124 {
        layout_laws::law_step_right(grid, items, screen_w, screen_h, cfg, s, core.wrap, t);
        if s + 1 < items.len() {
            layout_laws::law_rows_are_filled_in_order(
                grid,
                items,
                screen_w,
                screen_h,
                cfg,
                s as int,
            );
            layout_laws::law_cards_inside_margin(grid, items, screen_w, screen_h, cfg, s as int);
            layout_laws::law_cards_inside_margin(grid, items, screen_w, screen_h, cfg, s + 1);
        }
    }
}

/// Tab on the overlay, unless it is the other switcher's hotkey: the next entry,
/// with shift held the previous one, in a circle.
pub proof fn law_tab_walks_along_the_list(
    before: TapCtx,
    after: TapCtx,
    core: Core,
    core_after: Core,
    flags: u64,
    now: u64,
    result: TapResult,
)
    requires
        core.wf(),
        core.visible,
        core.items@.len() > 0,
        core.mode is Space || flags & 0x001e_0000u64 != 0x0010_0000u64,
        TapCtx::handles(
            before,
            after,
            core,
            core_after,
            keys::EVENT_KEY_DOWN,
            48,
            flags,
            now,
            result,
        ),
    ensures
        flags & 0x0002_0000u64 == 0 ==> core_after.selection == (if core.selection + 1
            < core.items@.len() {
            core.selection + 1
        } else {
            0
        }),
        flags & 0x0002_0000u64 != 0 ==> core_after.selection == (if core.selection > 0 {
            core.selection - 1
        } else {
            core.items@.len() - 1
        }),
        core_after == (Core { selection: core_after.selection, ..core }),
        result.swallow,
        result.cmd == Some(MainCmd::Redraw),
{
    law_selection_walks_in_a_circle(core);
    assert((flags & 0x001e_0000u64) & 0x0002_0000u64 == flags & 0x0002_0000u64) by (bit_vector);
    assert(flags & 0x001e_0000u64 == 0x0010_0000u64 ==> flags & 0x0002_0000u64 == 0)
        by (bit_vector);
}

/// On the overlay Escape cancels and Return switches to the selected window,
/// whatever modifiers are held; nothing else changes.
pub proof fn law_escape_cancels_and_return_switches(
    before: TapCtx,
    after: TapCtx,
    core: Core,
    core_after: Core,
    keycode: u16,
    flags: u64,
    now: u64,
    result: TapResult,
)
    requires
        core.visible,
        TapCtx::handles(
            before,
            after,
            core,
            core_after,
            keys::EVENT_KEY_DOWN,
            keycode,
            flags,
            now,
            result,
        ),
    ensures
        keycode == 53 ==> result.cmd == Some(MainCmd::Hide) && core_after == core,
        keycode == 36 ==> result.cmd == Some(MainCmd::Activate(core.selection)) && core_after
            == core,
{
}

/// On the overlay a key that means nothing is swallowed and changes nothing.
pub proof fn law_other_keys_do_nothing(
    before: TapCtx,
    after: TapCtx,
    core: Core,
    core_after: Core,
    keycode: u16,
    flags: u64,
    now: u64,
    result: TapResult,
)
    requires
        core.visible,
        !is_step_key(keycode),
        keycode != 48 && keycode != 53 && keycode != 36 && keycode != 35,
        keycode == 50 ==> flags & 0x001e_0000u64 != 0x0010_0000u64,
        18 <= keycode <= 20 ==> flags & 0x001e_0000u64 != 0x0012_0000u64,
        TapCtx::handles(
            before,
            after,
            core,
            core_after,
            keys::EVENT_KEY_DOWN,
            keycode,
            flags,
            now,
            result,
        ),
    ensures
        result.swallow,
        result.cmd is None,
        core_after == core,
        after == before,
{
    assert(0x0010_0000u64 | 0x0002_0000u64 == 0x0012_0000u64) by (bit_vector);
}

/// The two hotkeys: command-tab for the desktop switcher and command-grave for
/// the app switcher, with no other modifier. Either is swallowed and begins the
/// judgment whether it is a tap or a hold, which takes the configured delay.
pub proof fn law_hotkeys_arm_their_switcher(
    before: TapCtx,
    after: TapCtx,
    core: Core,
    core_after: Core,
    keycode: u16,
    flags: u64,
    now: u64,
    result: TapResult,
)
    requires
        !core.visible,
        !core.quick_pending,
        !core.quick_show_dispatched,
        flags & 0x001e_0000u64 == 0x0010_0000u64,
        TapCtx::handles(
            before,
            after,
            core,
            core_after,
            keys::EVENT_KEY_DOWN,
            keycode,
            flags,
            now,
            result,
        ),
    ensures
        keycode == 48 ==> core_after.quick_mode is Space,
        keycode == 50 ==> core_after.quick_mode is App,
        keycode == 48 || keycode == 50 ==> {
            &&& result.swallow
            &&& result.cmd is None
            &&& core_after.quick_pending
            &&& now + core.quick_delay_ms * 1_000_000 <= u64::MAX ==> core_after.quick_deadline
                == now + core.quick_delay_ms * 1_000_000
            &&& core_after == (Core {
                quick_pending: true,
                quick_mode: core_after.quick_mode,
                quick_deadline: core_after.quick_deadline,
                ..core
            })
        },
        keycode != 48 && keycode != 50 ==> {
            &&& !result.swallow
            &&& result.cmd is None
            &&& core_after == core
        },
{
    assert(0x0010_0000u64 | 0x0002_0000u64 == 0x0012_0000u64) by (bit_vector);
}

/// On its own overlay a hotkey advances to the next entry; on the other one's
/// it begins the judgment for its own switcher.
pub proof fn law_hotkeys_on_the_overlay(
    before: TapCtx,
    after: TapCtx,
    core: Core,
    core_after: Core,
    keycode: u16,
    flags: u64,
    now: u64,
    result: TapResult,
)
    requires
        core.wf(),
        core.visible,
        core.items@.len() > 0,
        !core.quick_pending,
        !core.quick_show_dispatched,
        keycode == 48 || keycode == 50,
        flags & 0x001e_0000u64 == 0x0010_0000u64,
        TapCtx::handles(
            before,
            after,
            core,
            core_after,
            keys::EVENT_KEY_DOWN,
            keycode,
            flags,
            now,
            result,
        ),
    ensures
        result.swallow,
        (keycode == 48) == (core.mode is Space) ==> {
            &&& core_after.selection == (if core.selection + 1 < core.items@.len() {
                core.selection + 1
            } else {
                0
            })
            &&& core_after == (Core { selection: core_after.selection, ..core })
        },
        (keycode == 48) != (core.mode is Space) ==> {
            &&& core_after.quick_pending
            &&& (core_after.quick_mode is Space) == (keycode == 48)
            &&& core_after.selection == core.selection
        },
{
    law_selection_walks_in_a_circle(core);
    assert(0x0010_0000u64 | 0x0002_0000u64 == 0x0012_0000u64) by (bit_vector);
    assert(0x0010_0000u64 != 0x0012_0000u64) by (bit_vector);
}

/// With command and shift held: tab opens the desktop switcher backwards, and
/// `1`, `2` and `3` switch to the window with that tag. While the overlay is
/// hidden no other key is touched.
pub proof fn law_command_shift_keys(
    before: TapCtx,
    after: TapCtx,
    core: Core,
    core_after: Core,
    keycode: u16,
    flags: u64,
    now: u64,
    result: TapResult,
)
    requires
        flags & 0x001e_0000u64 == 0x0012_0000u64,
        TapCtx::handles(
            before,
            after,
            core,
            core_after,
            keys::EVENT_KEY_DOWN,
            keycode,
            flags,
            now,
            result,
        ),
    ensures
        keycode == 18 ==> result.cmd == Some(MainCmd::ActivateTag(1)),
        keycode == 19 ==> result.cmd == Some(MainCmd::ActivateTag(2)),
        keycode == 20 ==> result.cmd == Some(MainCmd::ActivateTag(3)),
        18 <= keycode <= 20 ==> result.swallow && !core_after.quick_pending
            && !core_after.quick_show_dispatched && core_after == (Core {
            quick_pending: false,
            quick_show_dispatched: false,
            ..core
        }),
        !core.visible && keycode == 48 ==> result.swallow && core_after == core && result.cmd
            == Some(MainCmd::ShowBackwards(Mode::Space)),
        !core.visible && keycode != 48 && !(18 <= keycode <= 20) ==> !result.swallow
            && result.cmd is None && core_after == core,
{
    assert(0x0010_0000u64 | 0x0002_0000u64 == 0x0012_0000u64) by (bit_vector);
    assert(0x0010_0000u64 != 0x0012_0000u64) by (bit_vector);
}

/// Hotkeys need exactly their modifiers: with control or option held, or
/// without command, every key passes while the overlay is hidden.
pub proof fn law_hotkeys_need_exact_modifiers(
    before: TapCtx,
    after: TapCtx,
    core: Core,
    core_after: Core,
    keycode: u16,
    flags: u64,
    now: u64,
    result: TapResult,
)
    requires
        !core.visible,
        flags & 0x001e_0000u64 != 0x0010_0000u64,
        flags & 0x001e_0000u64 != 0x0012_0000u64,
        TapCtx::handles(
            before,
            after,
            core,
            core_after,
            keys::EVENT_KEY_DOWN,
            keycode,
            flags,
            now,
            result,
        ),
    ensures
        !result.swallow,
        result.cmd is None,
        core_after == core,
        after == before,
{
    assert(0x0010_0000u64 | 0x0002_0000u64 == 0x0012_0000u64) by (bit_vector);
}

/// The command key is the one modifier that counts: while it is down it is
/// known to be held. When it goes up a pending tap becomes a quick switch of
/// its mode, or else the visible overlay's selected window is switched to, or
/// else a show is cancelled. No other change of the modifiers gives a command.
pub proof fn law_release_of_the_command_key(
    before: TapCtx,
    after: TapCtx,
    core: Core,
    core_after: Core,
    keycode: u16,
    flags: u64,
    now: u64,
    result: TapResult,
)
    requires
        TapCtx::handles(
            before,
            after,
            core,
            core_after,
            keys::EVENT_FLAGS_CHANGED,
            keycode,
            flags,
            now,
            result,
        ),
    ensures
        core_after.cmd_held == (flags & 0x0010_0000u64 != 0),
        after.mods_down & 0x0010_0000u64 == flags & 0x0010_0000u64,
        before.mods_down & 0x0010_0000u64 != 0 && flags & 0x0010_0000u64 == 0 ==> {
            &&& core.quick_pending ==> result.cmd == Some(MainCmd::QuickSwitch(core.quick_mode))
            &&& !core.quick_pending && core.visible ==> result.cmd == Some(
                MainCmd::Activate(core.selection),
            )
            &&& !core.quick_pending && !core.visible ==> result.cmd == Some(MainCmd::Hide)
            &&& !core_after.quick_pending
            &&& !core_after.quick_show_dispatched
        },
        before.mods_down & 0x0010_0000u64 == 0 || flags & 0x0010_0000u64 != 0 ==> {
            &&& result.cmd is None
            &&& core_after == (Core { cmd_held: core_after.cmd_held, ..core })
        },
{
    let held = before.mods_down;
    assert(flags & 0x0010_0000u64 == 0 || flags & 0x0010_0000u64 == 0x0010_0000u64) by (bit_vector);
    assert(held & 0x0010_0000u64 == 0 || held & 0x0010_0000u64 == 0x0010_0000u64) by (bit_vector);
    assert((flags & 0x001e_0000u64) & 0x0010_0000u64 == flags & 0x0010_0000u64) by (bit_vector);
}

/// Tap or hold: the timer shows the overlay of the pressed hotkey's mode exactly
/// from the moment on at which the delay in milliseconds has passed since the
/// press, and only while the command key is held.
pub proof fn law_delay_tells_tap_from_hold(core: Core, mode: Mode, pressed: u64, polled: u64)
    requires
        !core.quick_pending,
        !core.quick_show_dispatched,
        pressed + core.quick_delay_ms * 1_000_000 <= u64::MAX,
    ensures
        tap::hold_detected(tap::armed(core, mode, pressed), polled) <==> core.cmd_held && polled
            >= pressed + core.quick_delay_ms * 1_000_000,
        tap::armed(core, mode, pressed).quick_mode == mode,
{
}

/// The tag key: a second press within 0.4 seconds of the first toggles the tag
/// of the selected window; a later one counts as a first press again.
pub proof fn law_tag_key_needs_two_quick_presses(
    before: TapCtx,
    after: TapCtx,
    core: Core,
    core_after: Core,
    flags: u64,
    now: u64,
    result: TapResult,
)
    requires
        core.visible,
        core.selection < core.items@.len(),
        TapCtx::handles(
            before,
            after,
            core,
            core_after,
            keys::EVENT_KEY_DOWN,
            35,
            flags,
            now,
            result,
        ),
    ensures
        core_after == core,
        result.swallow,
        match before.last_p_press {
            Some(t) if now <= t + 400_000_000 => {
                &&& result.cmd == Some(MainCmd::ToggleTag(core.items@[core.selection as int].id))
                &&& after.last_p_press is None
            },
            _ => {
                &&& result.cmd matches Some(MainCmd::TagHint(_))
                &&& after.last_p_press == Some(now)
            },
        },
{
}

/// Events other than key presses and changes of the modifiers pass untouched.
pub proof fn law_other_events_pass(
    before: TapCtx,
    after: TapCtx,
    core: Core,
    core_after: Core,
    event_type: u32,
    keycode: u16,
    flags: u64,
    now: u64,
    result: TapResult,
)
    requires
        event_type != 10,
        event_type != 12,
        TapCtx::handles(
            before,
            after,
            core,
            core_after,
            event_type,
            keycode,
            flags,
            now,
            result,
        ),
    ensures
        !result.swallow,
        result.cmd is None,
        core_after == core,
        after == before,
{
}

/// The clock counts nanoseconds: a moment some milliseconds later lies that many
/// million units later, and that much time has passed since.
pub proof fn law_clock_counts_nanoseconds(now: u64, ms: u64, since: u64)
    ensures
        now + ms * 1_000_000 <= u64::MAX ==> state::later(now, ms) == now + ms * 1_000_000,
        now + ms * 1_000_000 > u64::MAX ==> state::later(now, ms) == u64::MAX,
        now >= since ==> state::elapsed(now, since) == now - since,
        now < since ==> state::elapsed(now, since) == 0,
{
}

} // verus!
