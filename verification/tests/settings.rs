use winflow::overlay::init_app;
use winflow::panel::{
    confirm, open_panel_for_test, widget_frame, widget_text, Panel, PanelStep, Widget,
};
use winflow::permissions::{
    button_title, pane_for_response, pane_url, prompt_for_test, prompt_if_missing, Button, Pane,
    PermStatus,
};
use winflow::config::load;
use winflow::state::Core;

#[test]
fn panel_is_created_once() {
    let core = Core::new(true, 0);
    let mut panel = Panel { created: false };
    match open_panel_for_test(&mut panel, &core) {
        PanelStep::Create(interval, delay) => {
            assert_eq!(interval, "45");
            assert_eq!(delay, 80);
        }
        other => panic!("{:?}", other),
    }
    assert!(matches!(open_panel_for_test(&mut panel, &core), PanelStep::BringToFront));
}

#[test]
fn panel_applies_and_persists() {
    let mut core = Core::new(true, 0);
    let body = confirm(&mut core, " 25 ", Some(300));
    assert_eq!(core.capture_interval_ms, 25_000);
    assert_eq!(core.quick_delay_ms, 300);
    let cfg = load(Some(&body));
    assert_eq!((cfg.capture_interval, cfg.quick_delay), (25_000, 300));
    // What is no number keeps the current value; numbers are clamped.
    let body = confirm(&mut core, "abc", None);
    assert_eq!((core.capture_interval_ms, core.quick_delay_ms), (25_000, 300));
    assert!(body.ends_with("capture_interval=25\nquick_delay=300\n"));
    let cfg = load(Some(&body));
    assert_eq!((cfg.capture_interval, cfg.quick_delay), (25_000, 300));
    let body = confirm(&mut core, "0", Some(9_999_999));
    assert!(body.ends_with("capture_interval=1\nquick_delay=2000\n"));
    confirm(&mut core, "-3", Some(0));
    assert_eq!((core.capture_interval_ms, core.quick_delay_ms), (1000, 50));
}

#[test]
fn confirming_untouched_settings_keeps_what_was_loaded() {
    let loaded = load(Some("capture_interval=9999\nquick_delay=120\n"));
    assert_eq!((loaded.capture_interval, loaded.quick_delay), (3_600_000, 120));
    let mut core = Core::new(true, 0);
    init_app(loaded, &mut core, 0);
    assert_eq!((core.capture_interval_ms, core.quick_delay_ms), (3_600_000, 120));
    let body = confirm(&mut core, "", None);
    let again = load(Some(&body));
    assert_eq!((again.capture_interval, again.quick_delay), (3_600_000, 120));
}

#[test]
fn panel_frames() {
    let ok = widget_frame(Widget::Confirm);
    let cancel = widget_frame(Widget::Cancel);
    assert_eq!((ok.x, ok.y, ok.w, ok.h), (196_000, 12_000, 84_000, 30_000));
    assert!(cancel.x + cancel.w <= ok.x);
    assert_eq!(widget_text(Widget::Confirm), "确定");
    assert_eq!(widget_text(Widget::DelayLabel), "快捷键判定延迟（秒，0.05–2.0）");
    assert_eq!(widget_text(Widget::DelayField), "");
    let field = widget_frame(Widget::IntervalField);
    assert_eq!((field.x, field.y, field.w, field.h), (20_000, 126_000, 260_000, 26_000));
}

fn status(accessibility: bool, screen_recording: bool) -> PermStatus {
    PermStatus { accessibility, screen_recording }
}

#[test]
fn no_dialog_with_both_permissions() {
    assert!(prompt_if_missing(&status(true, true)).is_none());
}

#[test]
fn dialog_for_both_permissions() {
    let p = prompt_for_test();
    assert_eq!(p.message, "winflow 需要权限");
    assert_eq!(
        p.info,
        "检测到缺少以下权限：\n• 辅助功能 — 拦截 ⌘Tab / ⌘` 并置前窗口\n• 屏幕录制 — 显示窗口缩略图与标题\n\n\
         请点击下方按钮前往系统设置授权，然后重新打开 winflow。"
    );
    let titles: Vec<&str> = p.buttons.iter().map(|b| button_title(*b)).collect();
    assert_eq!(titles, vec!["打开辅助功能设置", "打开屏幕录制设置", "稍后再说"]);
    let s = status(false, false);
    assert_eq!(pane_for_response(&s, 1000), Some(Pane::Accessibility));
    assert_eq!(pane_for_response(&s, 1001), Some(Pane::ScreenRecording));
    assert_eq!(pane_for_response(&s, 1002), None);
}

#[test]
fn dialog_for_accessibility() {
    let s = status(false, true);
    let p = prompt_if_missing(&s).unwrap();
    assert_eq!(
        p.info,
        "检测到缺少以下权限：\n• 辅助功能 — 拦截 ⌘Tab / ⌘` 并置前窗口\n\n\
         请点击下方按钮前往系统设置授权，然后重新打开 winflow。"
    );
    assert_eq!(p.buttons, vec![Button::OpenSettings, Button::Later]);
    assert_eq!(button_title(p.buttons[0]), "打开系统设置");
    assert_eq!(pane_for_response(&s, 1000), Some(Pane::Accessibility));
    assert_eq!(pane_for_response(&s, 1001), None);
}

#[test]
fn dialog_for_screen_recording() {
    let s = status(true, false);
    let p = prompt_if_missing(&s).unwrap();
    assert_eq!(p.buttons, vec![Button::OpenSettings, Button::OpenScreenRecording]);
    assert_eq!(pane_for_response(&s, 1000), Some(Pane::ScreenRecording));
    assert_eq!(pane_for_response(&s, 1001), Some(Pane::ScreenRecording));
    assert_eq!(pane_for_response(&s, 0), None);
}

#[test]
fn panes_have_addresses() {
    assert_eq!(
        pane_url(Pane::Accessibility),
        "x-apple.systempreferences:com.apple.preference.security?Privacy_Accessibility"
    );
    assert_eq!(
        pane_url(Pane::ScreenRecording),
        "x-apple.systempreferences:com.apple.preference.security?Privacy_ScreenCapture"
    );
}
