//! The settings panel: what it shows, and what its buttons do.
//!
//! Lengths are in milli-points, with the origin in the bottom left corner.

use crate::config;
use crate::layout::Rect;
use crate::overlay::{
    current_capture_interval, current_quick_delay, set_capture_interval, set_quick_delay,
};
use crate::state::Core;
use crate::util;
use vstd::prelude::*;

verus! {

/// State of the settings panel. It is created when it is first opened; closing
/// only takes it off the screen.
#[derive(Debug)]
pub struct Panel {
    pub created: bool,
}

/// What opening the panel takes.
#[derive(Debug)]
pub enum PanelStep {
    /// Bring the panel to the front.
    BringToFront,
    /// Create the panel, with this text in the field of the interval and this
    /// delay, in milliseconds, in the other field; then bring it to the front.
    Create(String, u64),
}

/// A part of the panel.
#[derive(Clone, Copy, PartialEq, Eq, Debug, Structural)]
pub enum Widget {
    IntervalLabel,
    IntervalField,
    DelayLabel,
    DelayField,
    Confirm,
    Cancel,
}

/// Size of the panel.
pub const PANEL_W: i64 = 300_000;

pub const PANEL_H: i64 = 210_000;

/// Where a part of the panel stands.
pub open spec fn frame_of(widget: Widget) -> Rect {
    match widget {
        Widget::IntervalLabel => Rect { x: 20_000, y: 158_000, w: 260_000, h: 22_000 },
        Widget::IntervalField => Rect { x: 20_000, y: 126_000, w: 260_000, h: 26_000 },
        Widget::DelayLabel => Rect { x: 20_000, y: 94_000, w: 260_000, h: 22_000 },
        Widget::DelayField => Rect { x: 20_000, y: 62_000, w: 260_000, h: 26_000 },
        Widget::Confirm => Rect { x: 196_000, y: 12_000, w: 84_000, h: 30_000 },
        Widget::Cancel => Rect { x: 104_000, y: 12_000, w: 84_000, h: 30_000 },
    }
}

pub fn widget_frame(widget: Widget) -> (frame: Rect)
    ensures
        frame == frame_of(widget),
{
    match widget {
        Widget::IntervalLabel => Rect { x: 20_000, y: 158_000, w: 260_000, h: 22_000 },
        Widget::IntervalField => Rect { x: 20_000, y: 126_000, w: 260_000, h: 26_000 },
        Widget::DelayLabel => Rect { x: 20_000, y: 94_000, w: 260_000, h: 22_000 },
        Widget::DelayField => Rect { x: 20_000, y: 62_000, w: 260_000, h: 26_000 },
        Widget::Confirm => Rect { x: 196_000, y: 12_000, w: 84_000, h: 30_000 },
        Widget::Cancel => Rect { x: 104_000, y: 12_000, w: 84_000, h: 30_000 },
    }
}

/// What is written on a label or a button of the panel; fields have no fixed
/// text.
pub fn widget_text(widget: Widget) -> (text: &'static str)
    ensures
        text@ == (match widget {
            Widget::IntervalLabel => "缩略图更新间隔（秒）"@,
            Widget::DelayLabel => "快捷键判定延迟（秒，0.05–2.0）"@,
            Widget::Confirm => "确定"@,
            Widget::Cancel => "取消"@,
            Widget::IntervalField | Widget::DelayField => ""@,
        }),
{
    match widget {
        Widget::IntervalLabel => "缩略图更新间隔（秒）",
        Widget::DelayLabel => "快捷键判定延迟（秒，0.05–2.0）",
        Widget::Confirm => "确定",
        Widget::Cancel => "取消",
        Widget::IntervalField | Widget::DelayField => "",
    }
}

/// All parts of the panel lie in it, and no two of them overlap.
pub proof fn law_widgets_do_not_overlap(a: Widget, b: Widget)
    ensures
        0 <= frame_of(a).x && frame_of(a).x + frame_of(a).w <= PANEL_W,
        0 <= frame_of(a).y && frame_of(a).y + frame_of(a).h <= PANEL_H,
        a != b ==> {
            ||| frame_of(a).x + frame_of(a).w <= frame_of(b).x
            ||| frame_of(b).x + frame_of(b).w <= frame_of(a).x
            ||| frame_of(a).y + frame_of(a).h <= frame_of(b).y
            ||| frame_of(b).y + frame_of(b).h <= frame_of(a).y
        },
{
}

/// Open the settings panel.
pub fn open_panel_for_test(panel: &mut Panel, core: &Core) -> (step: PanelStep)
    ensures
        final(panel).created,
        old(panel).created ==> step is BringToFront,
        !old(panel).created ==> (step matches PanelStep::Create(interval, delay_ms) && interval@
            == util::decimal_digits(core.capture_interval_ms as int / 1000) && delay_ms
            == core.quick_delay_ms),
{
    if panel.created {
        return PanelStep::BringToFront;
    }
    panel.created = true;
    PanelStep::Create(util::decimal(current_capture_interval(core)), current_quick_delay(core))
}

/// The panel's interval field as a number of seconds, if it is one.
pub open spec fn entered_interval(text: Seq<char>) -> Option<u64> {
    util::parsed_u64(util::trimmed(text))
}

/// The interval after the panel was confirmed, in milliseconds: what was
/// entered, moved into its range, or the current one if that is no number.
pub open spec fn interval_after(core: Core, text: Seq<char>) -> u64 {
    match entered_interval(text) {
        Some(secs) => (config::clamped_interval(secs) * 1000) as u64,
        None => core.capture_interval_ms,
    }
}

/// The delay after the panel was confirmed: `entered` is the number that was
/// entered, if it was one.
pub open spec fn delay_after(core: Core, entered: Option<u64>) -> u64 {
    match entered {
        Some(ms) => config::clamped_delay(ms),
        None => core.quick_delay_ms,
    }
}

/// The panel was confirmed: apply what was entered, and return the text that
/// persists the settings as they apply now.
pub fn confirm(core: &mut Core, interval_text: &str, delay_ms: Option<u64>) -> (body: String)
    ensures
        *final(core) == (Core {
            capture_interval_ms: interval_after(*old(core), interval_text@),
            quick_delay_ms: delay_after(*old(core), delay_ms),
            ..*old(core)
        }),
        body@ == config::settings_text(
            config::clamped_interval(final(core).capture_interval_ms / 1000),
            config::clamped_delay(final(core).quick_delay_ms),
        ),
        old(core).settings_valid() ==> final(core).settings_valid(),
        old(core).wf() ==> final(core).wf(),
{
    let chars = util::chars_of(interval_text);
    let (from, to) = util::trim_range(&chars, 0, chars.len());
    assert(chars@.subrange(0, chars@.len() as int) =~= chars@);
    if let Some(secs) = util::parse_u64(&chars, from, to) {
        set_capture_interval(core, secs);
    }
    if let Some(ms) = delay_ms {
        set_quick_delay(core, ms);
    }
    config::save(current_capture_interval(core), current_quick_delay(core))
}

/// What applies after the panel was confirmed is what is loaded at the next
/// start, whatever was entered: also when the interval was not a number or no
/// delay was chosen, and the setting stayed as it was.
pub proof fn law_confirmed_settings_survive_a_restart(
    core: Core,
    interval_text: Seq<char>,
    delay_ms: Option<u64>,
)
    requires
        core.settings_valid(),
    ensures
        ({
            let text = config::settings_text(
                config::clamped_interval(interval_after(core, interval_text) / 1000),
                config::clamped_delay(delay_after(core, delay_ms)),
            );
            let loaded = config::settings_of(Some(text));
            &&& loaded.interval_secs * 1000 == interval_after(core, interval_text)
            &&& loaded.delay_ms == delay_after(core, delay_ms)
        }),
{
    config::law_saved_settings_load_back(
        interval_after(core, interval_text) / 1000,
        delay_after(core, delay_ms),
    );
}

} // verus!
