//! What the global event tap does with keyboard events.
//!
//! The tap only changes the shared state and hands commands to the main
//! thread. An event that it swallows never reaches another app.

use crate::keys;
use crate::layout::Dir;
use crate::state::{
    clock_after, hotkey_app, hotkey_space, Core, Hotkey, MainCmd, Mode, DOUBLE_P_MS,
};
use crate::state;
use vstd::prelude::*;

verus! {

/// State of the event tap.
#[derive(Debug)]
pub struct TapCtx {
    /// Modifiers that are down.
    pub mods_down: u64,
    /// When `p` was last pressed on the overlay.
    pub last_p_press: Option<u64>,
}

/// What becomes of an event: whether it is swallowed, and the command for the
/// main thread, if any.
#[derive(Debug)]
pub struct TapResult {
    pub swallow: bool,
    pub cmd: Option<MainCmd>,
}

/// The meaning of a key press.
#[derive(Clone, Copy, PartialEq, Eq, Debug, Structural)]
pub enum Key {
    /// Open the desktop switcher at once, with its last entry selected.
    OpenBackwards,
    /// A hotkey while its switcher is not up: tap or hold.
    Arm(Mode),
    /// Switch to the window with this tag.
    Tag(usize),
    Next,
    Prev,
    Step(Dir),
    Cancel,
    Confirm,
    /// First or second press of the tag key.
    TagKey,
    /// Swallowed without effect.
    Ignore,
    /// Not for the switcher.
    Pass,
}

/// The command key is among the modifiers.
pub open spec fn has_command(flags: u64) -> bool {
    flags & keys::FLAG_COMMAND == keys::FLAG_COMMAND
}

pub open spec fn has_shift(flags: u64) -> bool {
    flags & keys::FLAG_SHIFT != 0
}

/// Keys on the visible overlay that are no hotkeys.
pub open spec fn overlay_key(keycode: u16, mods: u64) -> Key {
    if keycode == keys::KEY_TAB {
        if has_shift(mods) {
            Key::Prev
        } else {
            Key::Next
        }
    } else if keycode == keys::KEY_ESCAPE {
        Key::Cancel
    } else if keycode == keys::KEY_RETURN {
        Key::Confirm
    } else if keycode == keys::KEY_H || keycode == keys::KEY_LEFT_ARROW {
        Key::Step(Dir::Left)
    } else if keycode == keys::KEY_L || keycode == keys::KEY_RIGHT_ARROW {
        Key::Step(Dir::Right)
    } else if keycode == keys::KEY_K || keycode == keys::KEY_UP_ARROW {
        Key::Step(Dir::Up)
    } else if keycode == keys::KEY_J || keycode == keys::KEY_DOWN_ARROW {
        Key::Step(Dir::Down)
    } else if keycode == keys::KEY_P {
        Key::TagKey
    } else {
        Key::Ignore
    }
}

/// The meaning of a key press: `mods` are the modifiers of the event,
/// `visible` and `mode` tell whether and as what the overlay is up.
pub open spec fn key_meaning(visible: bool, mode: Mode, keycode: u16, mods: u64) -> Key {
    let command = mods == keys::FLAG_COMMAND;
    let command_shift = mods == keys::FLAG_COMMAND | keys::FLAG_SHIFT;
    if !visible && keycode == keys::KEY_TAB && command_shift {
        Key::OpenBackwards
    } else if command && keycode == keys::KEY_TAB {
        if visible && mode is Space {
            Key::Next
        } else {
            Key::Arm(Mode::Space)
        }
    } else if command && keycode == keys::KEY_GRAVE {
        if visible && mode is App {
            Key::Next
        } else {
            Key::Arm(Mode::App)
        }
    } else if command_shift && keycode == keys::KEY_1 {
        Key::Tag(1)
    } else if command_shift && keycode == keys::KEY_2 {
        Key::Tag(2)
    } else if command_shift && keycode == keys::KEY_3 {
        Key::Tag(3)
    } else if visible {
        overlay_key(keycode, mods)
    } else {
        Key::Pass
    }
}

fn meaning(visible: bool, mode: Mode, keycode: u16, mods: u64) -> (key: Key)
    ensures
        key == key_meaning(visible, mode, keycode, mods),
{
    let command_shift: bool = mods == keys::FLAG_COMMAND | keys::FLAG_SHIFT;
    if !visible && keycode == keys::KEY_TAB && command_shift {
        return Key::OpenBackwards;
    }
    let pressed = Hotkey { mods, keycode };
    if pressed == hotkey_space() {
        return if visible && mode == Mode::Space {
            Key::Next
        } else {
            Key::Arm(Mode::Space)
        };
    }
    if pressed == hotkey_app() {
        return if visible && mode == Mode::App {
            Key::Next
        } else {
            Key::Arm(Mode::App)
        };
    }
    if command_shift {
        if keycode == keys::KEY_1 {
            return Key::Tag(1);
        }
        if keycode == keys::KEY_2 {
            return Key::Tag(2);
        }
        if keycode == keys::KEY_3 {
            return Key::Tag(3);
        }
    }
    if !visible {
        return Key::Pass;
    }
    if keycode == keys::KEY_TAB {
        if mods & keys::FLAG_SHIFT != 0 {
            Key::Prev
        } else {
            Key::Next
        }
    } else if keycode == keys::KEY_ESCAPE {
        Key::Cancel
    } else if keycode == keys::KEY_RETURN {
        Key::Confirm
    } else if keycode == keys::KEY_H || keycode == keys::KEY_LEFT_ARROW {
        Key::Step(Dir::Left)
    } else if keycode == keys::KEY_L || keycode == keys::KEY_RIGHT_ARROW {
        Key::Step(Dir::Right)
    } else if keycode == keys::KEY_K || keycode == keys::KEY_UP_ARROW {
        Key::Step(Dir::Up)
    } else if keycode == keys::KEY_J || keycode == keys::KEY_DOWN_ARROW {
        Key::Step(Dir::Down)
    } else if keycode == keys::KEY_P {
        Key::TagKey
    } else {
        Key::Ignore
    }
}

// ---------- quick taps ----------

/// The state after a hotkey press that may become a quick tap. A press that
/// repeats the pending one, or comes while the overlay is loading, changes
/// nothing and in particular does not extend the deadline.
pub open spec fn armed(core: Core, mode: Mode, now: u64) -> Core {
    if (core.quick_pending && core.quick_mode == mode) || core.quick_show_dispatched {
        core
    } else {
        Core {
            quick_pending: true,
            quick_mode: mode,
            quick_deadline: state::later(now, core.quick_delay_ms),
            ..core
        }
    }
}

/// Begin the judgment of a quick tap: the overlay is not shown at once but
/// when the delay is over and the modifier still held; a fast release switches
/// to the previous window instead.
fn arm_quick(core: &mut Core, mode: Mode, now: u64)
    ensures
        *final(core) == armed(*old(core), mode, now),
        old(core).wf() ==> final(core).wf(),
{
    if core.quick_pending && core.quick_mode == mode {
        return;
    }
    if core.quick_show_dispatched {
        return;
    }
    core.quick_pending = true;
    core.quick_mode = mode;
    core.quick_deadline = clock_after(now, core.quick_delay_ms);
}

/// The quick-tap delay is over while the modifier is still held.
pub open spec fn hold_detected(core: Core, now: u64) -> bool {
    core.quick_pending && !core.quick_show_dispatched && core.cmd_held && now >= core.quick_deadline
}

/// Polled by the quick-tap timer: show the switcher once the delay is over
/// while the modifier is still held. The tap stays pending until the overlay
/// is there, so that further presses do not arm it again.
pub fn poll_quick_timer(core: &mut Core, now: u64) -> (cmd: Option<MainCmd>)
    ensures
        *final(core) == (Core {
            quick_show_dispatched: old(core).quick_show_dispatched || hold_detected(
                *old(core),
                now,
            ),
            ..*old(core)
        }),
        cmd == (if hold_detected(*old(core), now) {
            Some(MainCmd::Show(old(core).quick_mode, true))
        } else {
            None
        }),
        old(core).wf() ==> final(core).wf(),
{
    if core.quick_pending && !core.quick_show_dispatched && core.cmd_held && now
        >= core.quick_deadline {
        core.quick_show_dispatched = true;
        Some(MainCmd::Show(core.quick_mode, true))
    } else {
        None
    }
}

// ---------- the tag key ----------

/// The tag key was pressed twice within the allowed time.
pub open spec fn is_double_press(last: Option<u64>, now: u64) -> bool {
    last matches Some(t) && state::elapsed(now, t) <= DOUBLE_P_MS * 1_000_000
}

fn double_press(last: Option<u64>, now: u64) -> (yes: bool)
    ensures
        yes == is_double_press(last, now),
{
    match last {
        Some(t) => now.saturating_sub(t) <= DOUBLE_P_MS * 1_000_000,
        None => false,
    }
}

// ---------- events ----------

impl TapCtx {
    pub fn new() -> (tap: Self)
        ensures
            tap.mods_down == 0,
            tap.last_p_press is None,
    {
        TapCtx { mods_down: 0, last_p_press: None }
    }

    /// What the release of the command key does.
    pub open spec fn release_cmd(core: Core) -> MainCmd {
        if core.quick_pending {
            MainCmd::QuickSwitch(core.quick_mode)
        } else if core.visible {
            MainCmd::Activate(core.selection)
        } else {
            MainCmd::Hide
        }
    }

    /// The command key goes up with this change of the modifiers.
    pub open spec fn releases_command(self, flags: u64) -> bool {
        has_command(self.mods_down) && !has_command(flags)
    }

    /// What a change of the modifiers does. It is never swallowed. Releasing
    /// the command key ends a pending tap with a quick switch, or activates the
    /// selected window of the visible overlay, or cancels a show that is under
    /// way. After it nothing is pending and no overlay is loading.
    pub open spec fn flags_changed(
        before: TapCtx,
        after: TapCtx,
        core: Core,
        core_after: Core,
        flags: u64,
        result: TapResult,
    ) -> bool {
        &&& after == (TapCtx { mods_down: flags & keys::MOD_MASK, ..before })
        &&& !result.swallow
        &&& if before.releases_command(flags) {
            &&& result.cmd == Some(Self::release_cmd(core))
            &&& core_after == (Core {
                cmd_held: false,
                quick_pending: false,
                quick_show_dispatched: false,
                ..core
            })
        } else {
            &&& result.cmd is None
            &&& core_after == (Core { cmd_held: has_command(flags), ..core })
        }
    }

    fn on_flags(&mut self, core: &mut Core, flags: u64) -> (result: TapResult)
        ensures
            Self::flags_changed(
                *old(self),
                *final(self),
                *old(core),
                *final(core),
                flags,
                result,
            ),
            old(core).wf() ==> final(core).wf(),
    {
        let now: u64 = flags & keys::MOD_MASK;
        let cmd: u64 = keys::FLAG_COMMAND;
        assert((flags & 0x001e_0000u64) & 0x0010_0000u64 == flags & 0x0010_0000u64)
            by (bit_vector);
        let prev_had: bool = (self.mods_down & cmd) == cmd;
        let now_had: bool = (now & cmd) == cmd;
        self.mods_down = now;
        core.cmd_held = now_had;
        if prev_had && !now_had {
            core.quick_show_dispatched = false;
            if core.quick_pending {
                core.quick_pending = false;
                TapResult { swallow: false, cmd: Some(MainCmd::QuickSwitch(core.quick_mode)) }
            } else if core.visible {
                TapResult { swallow: false, cmd: Some(MainCmd::Activate(core.selection)) }
            } else {
                TapResult { swallow: false, cmd: Some(MainCmd::Hide) }
            }
        } else {
            TapResult { swallow: false, cmd: None }
        }
    }

    /// The meaning of a key press in the current state.
    pub open spec fn key(core: Core, keycode: u16, flags: u64) -> Key {
        key_meaning(core.visible, core.mode, keycode, flags & keys::MOD_MASK)
    }

    /// What a press of the tag key does: the first press shows a hint, the
    /// second one, if it comes in time, toggles the selected window's tag.
    pub open spec fn tag_key_pressed(
        before: TapCtx,
        after: TapCtx,
        core: Core,
        now: u64,
        cmd: Option<MainCmd>,
    ) -> bool {
        if is_double_press(before.last_p_press, now) {
            &&& after == (TapCtx { last_p_press: None, ..before })
            &&& cmd == (if core.selection < core.items@.len() {
                Some(MainCmd::ToggleTag(core.items@[core.selection as int].id))
            } else {
                None
            })
        } else {
            &&& after == (TapCtx { last_p_press: Some(now), ..before })
            &&& cmd matches Some(MainCmd::TagHint(t)) && t@
                == "再按一次 P 添加/移除标签（⌘⇧1-3 快速切换）"@
        }
    }

    /// What a key press does.
    pub open spec fn key_down(
        before: TapCtx,
        after: TapCtx,
        core: Core,
        core_after: Core,
        keycode: u16,
        flags: u64,
        now: u64,
        result: TapResult,
    ) -> bool {
        let key = Self::key(core, keycode, flags);
        &&& result.swallow == !(key is Pass)
        &&& if key is TagKey {
            core_after == core && Self::tag_key_pressed(before, after, core, now, result.cmd)
        } else {
            after == before && Self::key_pressed(key, core, core_after, now, result.cmd)
        }
    }

    fn on_key_down(
        &mut self,
        core: &mut Core,
        keycode: u16,
        flags: u64,
        now: u64,
    ) -> (result: TapResult)
        requires
            old(core).wf(),
        ensures
            final(core).wf(),
            Self::key_down(
                *old(self),
                *final(self),
                *old(core),
                *final(core),
                keycode,
                flags,
                now,
                result,
            ),
    {
        let mods: u64 = flags & keys::MOD_MASK;
        assert(core.items.len() == core.items@.len());
        let key = meaning(core.visible, core.mode, keycode, mods);
        let cmd: Option<MainCmd> = match key {
            Key::OpenBackwards => Some(MainCmd::ShowBackwards(Mode::Space)),
            Key::Arm(mode) => {
                arm_quick(core, mode, now);
                None
            },
            Key::Tag(n) => {
                core.quick_pending = false;
                core.quick_show_dispatched = false;
                Some(MainCmd::ActivateTag(n))
            },
            Key::Next => {
                core.nav_next();
                Some(MainCmd::Redraw)
            },
            Key::Prev => {
                core.nav_prev();
                Some(MainCmd::Redraw)
            },
            Key::Step(dir) => {
                core.nav_dir(dir);
                Some(MainCmd::Redraw)
            },
            Key::Cancel => Some(MainCmd::Hide),
            Key::Confirm => Some(MainCmd::Activate(core.selection)),
            Key::TagKey => if double_press(self.last_p_press, now) {
                self.last_p_press = None;
                if core.selection < core.items.len() {
                    Some(MainCmd::ToggleTag(core.items[core.selection].id))
                } else {
                    None
                }
            } else {
                self.last_p_press = Some(now);
                Some(
                    MainCmd::TagHint(
                        "再按一次 P 添加/移除标签（⌘⇧1-3 快速切换）".to_owned(),
                    ),
                )
            },
            Key::Ignore => None,
            Key::Pass => None,
        };
        TapResult { swallow: key != Key::Pass, cmd }
    }

    /// What a key with the given meaning (other than the tag key) does.
    pub open spec fn key_pressed(
        key: Key,
        before: Core,
        after: Core,
        now: u64,
        cmd: Option<MainCmd>,
    ) -> bool {
        match key {
            Key::OpenBackwards => after == before && cmd == Some(
                MainCmd::ShowBackwards(Mode::Space),
            ),
            Key::Arm(mode) => after == armed(before, mode, now) && cmd is None,
            Key::Tag(n) => {
                &&& after == (Core {
                    quick_pending: false,
                    quick_show_dispatched: false,
                    ..before
                })
                &&& cmd == Some(MainCmd::ActivateTag(n))
            },
            Key::Next => {
                &&& after == (Core { selection: before.next_selection(), ..before })
                &&& cmd == Some(MainCmd::Redraw)
            },
            Key::Prev => {
                &&& after == (Core { selection: before.prev_selection(), ..before })
                &&& cmd == Some(MainCmd::Redraw)
            },
            Key::Step(dir) => {
                &&& before.steps_to(dir, after.selection)
                &&& after == (Core { selection: after.selection, ..before })
                &&& cmd == Some(MainCmd::Redraw)
            },
            Key::Cancel => after == before && cmd == Some(MainCmd::Hide),
            Key::Confirm => after == before && cmd == Some(MainCmd::Activate(before.selection)),
            Key::TagKey | Key::Ignore | Key::Pass => after == before && cmd is None,
        }
    }

    /// What an event does: changes of the modifiers and key presses are
    /// handled, everything else passes.
    pub open spec fn handles(
        before: TapCtx,
        after: TapCtx,
        core: Core,
        core_after: Core,
        event_type: u32,
        keycode: u16,
        flags: u64,
        now: u64,
        result: TapResult,
    ) -> bool {
        if event_type == keys::EVENT_FLAGS_CHANGED {
            Self::flags_changed(before, after, core, core_after, flags, result)
        } else if event_type == keys::EVENT_KEY_DOWN {
            Self::key_down(before, after, core, core_after, keycode, flags, now, result)
        } else {
            &&& after == before
            &&& core_after == core
            &&& !result.swallow
            &&& result.cmd is None
        }
    }

    /// Handle one event of the tap at time `now`.
    pub fn handle(
        &mut self,
        core: &mut Core,
        event_type: u32,
        keycode: u16,
        flags: u64,
        now: u64,
    ) -> (result: TapResult)
        requires
            old(core).wf(),
        ensures
            final(core).wf(),
            Self::handles(
                *old(self),
                *final(self),
                *old(core),
                *final(core),
                event_type,
                keycode,
                flags,
                now,
                result,
            ),
    {
        if event_type == keys::EVENT_FLAGS_CHANGED {
            self.on_flags(core, flags)
        } else if event_type == keys::EVENT_KEY_DOWN {
            self.on_key_down(core, keycode, flags, now)
        } else {
            TapResult { swallow: false, cmd: None }
        }
    }
}

} // verus!
