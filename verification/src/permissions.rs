//! The dialog about missing permissions.
//!
//! The switcher needs two permissions: Accessibility, to intercept its hotkeys
//! and to raise windows, and Screen Recording, for thumbnails and titles. Both
//! are looked up at every launch; when one is missing, a dialog offers to open
//! its pane of the system's settings.

use vstd::prelude::*;
use vstd::string::StringExecFns;

verus! {

/// Which permissions have been granted.
#[derive(Clone, Copy, PartialEq, Eq, Debug, Structural)]
pub struct PermStatus {
    pub accessibility: bool,
    pub screen_recording: bool,
}

/// A pane of the system's settings.
#[derive(Clone, Copy, PartialEq, Eq, Debug, Structural)]
pub enum Pane {
    Accessibility,
    ScreenRecording,
}

/// A button of the dialog.
#[derive(Clone, Copy, PartialEq, Eq, Debug, Structural)]
pub enum Button {
    OpenAccessibility,
    OpenSettings,
    OpenScreenRecording,
    Later,
}

/// The dialog.
#[derive(Debug)]
pub struct Prompt {
    pub message: String,
    pub info: String,
    /// First button first.
    pub buttons: Vec<Button>,
}

/// What the system answers when the first button of a dialog was pressed; each
/// further button counts one more.
pub const FIRST_BUTTON: i64 = 1000;

/// The lines about what is missing.
pub open spec fn missing_lines(status: PermStatus) -> Seq<char> {
    let ax = "• 辅助功能 — 拦截 ⌘Tab / ⌘` 并置前窗口"@;
    let screen = "• 屏幕录制 — 显示窗口缩略图与标题"@;
    if !status.accessibility && !status.screen_recording {
        ax + "\n"@ + screen
    } else if !status.accessibility {
        ax
    } else if !status.screen_recording {
        screen
    } else {
        Seq::empty()
    }
}

pub open spec fn info_text(status: PermStatus) -> Seq<char> {
    "检测到缺少以下权限：\n"@ + missing_lines(status)
        + "\n\n请点击下方按钮前往系统设置授权，然后重新打开 winflow。"@
}

/// The buttons of the dialog.
pub open spec fn buttons_for(status: PermStatus) -> Seq<Button> {
    if !status.accessibility && !status.screen_recording {
        seq![Button::OpenAccessibility, Button::OpenScreenRecording, Button::Later]
    } else if !status.screen_recording {
        seq![Button::OpenSettings, Button::OpenScreenRecording]
    } else {
        seq![Button::OpenSettings, Button::Later]
    }
}

/// The pane that a button opens.
pub open spec fn pane_of(status: PermStatus, button: Button) -> Option<Pane> {
    match button {
        Button::OpenAccessibility => Some(Pane::Accessibility),
        Button::OpenScreenRecording => Some(Pane::ScreenRecording),
        Button::OpenSettings => if !status.accessibility {
            Some(Pane::Accessibility)
        } else if !status.screen_recording {
            Some(Pane::ScreenRecording)
        } else {
            None
        },
        Button::Later => None,
    }
}

/// `prompt` is the dialog about the given permissions.
pub open spec fn asks_for(prompt: Prompt, status: PermStatus) -> bool {
    &&& prompt.message@ == "winflow 需要权限"@
    &&& prompt.info@ == info_text(status)
    &&& prompt.buttons@ == buttons_for(status)
}

/// The dialog to show at startup, if a permission is missing.
pub fn prompt_if_missing(status: &PermStatus) -> (dialog: Option<Prompt>)
    ensures
        match dialog {
            Some(p) => !(status.accessibility && status.screen_recording) && asks_for(p, *status),
            None => status.accessibility && status.screen_recording,
        },
{
    if status.accessibility && status.screen_recording {
        None
    } else {
        Some(prompt(status))
    }
}

/// The dialog as if both permissions were missing.
pub fn prompt_for_test() -> (dialog: Prompt)
    ensures
        asks_for(dialog, PermStatus { accessibility: false, screen_recording: false }),
{
    prompt(&PermStatus { accessibility: false, screen_recording: false })
}

fn prompt(status: &PermStatus) -> (dialog: Prompt)
    ensures
        asks_for(dialog, *status),
{
    let ax_missing = !status.accessibility;
    let screen_missing = !status.screen_recording;
    let lines = if ax_missing && screen_missing {
        "• 辅助功能 — 拦截 ⌘Tab / ⌘` 并置前窗口".to_owned().concat("\n").concat(
            "• 屏幕录制 — 显示窗口缩略图与标题",
        )
    } else if ax_missing {
        "• 辅助功能 — 拦截 ⌘Tab / ⌘` 并置前窗口".to_owned()
    } else if screen_missing {
        "• 屏幕录制 — 显示窗口缩略图与标题".to_owned()
    } else {
        String::new()
    };
    let info = "检测到缺少以下权限：\n".to_owned().concat(&lines).concat(
        "\n\n请点击下方按钮前往系统设置授权，然后重新打开 winflow。",
    );
    let mut buttons: Vec<Button> = Vec::new();
    if ax_missing && screen_missing {
        buttons.push(Button::OpenAccessibility);
    } else {
        buttons.push(Button::OpenSettings);
    }
    if screen_missing {
        buttons.push(Button::OpenScreenRecording);
    } else {
        buttons.push(Button::Later);
    }
    if ax_missing && screen_missing {
        buttons.push(Button::Later);
    }
    assert(buttons@ =~= buttons_for(*status));
    Prompt { message: "winflow 需要权限".to_owned(), info, buttons }
}

/// What is written on a button.
pub fn button_title(button: Button) -> (title: &'static str)
    ensures
        title@ == (match button {
            Button::OpenAccessibility => "打开辅助功能设置"@,
            Button::OpenSettings => "打开系统设置"@,
            Button::OpenScreenRecording => "打开屏幕录制设置"@,
            Button::Later => "稍后再说"@,
        }),
{
    match button {
        Button::OpenAccessibility => "打开辅助功能设置",
        Button::OpenSettings => "打开系统设置",
        Button::OpenScreenRecording => "打开屏幕录制设置",
        Button::Later => "稍后再说",
    }
}

/// The pane to open after the dialog was answered.
pub open spec fn answered(status: PermStatus, response: i64) -> Option<Pane> {
    let i = response - FIRST_BUTTON;
    if 0 <= i < buttons_for(status).len() {
        pane_of(status, buttons_for(status)[i])
    } else {
        None
    }
}

pub fn pane_for_response(status: &PermStatus, response: i64) -> (pane: Option<Pane>)
    ensures
        pane == answered(*status, response),
{
    let ax_missing = !status.accessibility;
    let screen_missing = !status.screen_recording;
    if response == FIRST_BUTTON {
        if ax_missing {
            Some(Pane::Accessibility)
        } else if screen_missing {
            Some(Pane::ScreenRecording)
        } else {
            None
        }
    } else if response == FIRST_BUTTON + 1 && screen_missing {
        Some(Pane::ScreenRecording)
    } else {
        None
    }
}

/// Address of a pane.
pub fn pane_url(pane: Pane) -> (url: &'static str)
    ensures
        url@ == (match pane {
            Pane::Accessibility =>
            "x-apple.systempreferences:com.apple.preference.security?Privacy_Accessibility"@,
            Pane::ScreenRecording =>
            "x-apple.systempreferences:com.apple.preference.security?Privacy_ScreenCapture"@,
        }),
{
    match pane {
        Pane::Accessibility =>
        "x-apple.systempreferences:com.apple.preference.security?Privacy_Accessibility",
        Pane::ScreenRecording =>
        "x-apple.systempreferences:com.apple.preference.security?Privacy_ScreenCapture",
    }
}

/// Every button that is named after a pane opens that pane, and the dialog has
/// a button for every missing permission.
pub proof fn law_buttons_lead_to_their_panes(status: PermStatus)
    requires
        !(status.accessibility && status.screen_recording),
    ensures
        forall|i: int|
            0 <= i < buttons_for(status).len() ==> {
                &&& #[trigger] buttons_for(status)[i] == Button::OpenAccessibility ==> answered(
                    status,
                    (FIRST_BUTTON + i) as i64,
                ) == Some(Pane::Accessibility)
                &&& buttons_for(status)[i] == Button::OpenScreenRecording ==> answered(
                    status,
                    (FIRST_BUTTON + i) as i64,
                ) == Some(Pane::ScreenRecording)
            },
        !status.accessibility ==> exists|r: i64| #[trigger]
            answered(status, r) == Some(Pane::Accessibility),
        !status.screen_recording ==> exists|r: i64| #[trigger]
            answered(status, r) == Some(Pane::ScreenRecording),
{
    assert(answered(status, 1000) == pane_of(status, buttons_for(status)[0]));
    assert(answered(status, 1001) == pane_of(status, buttons_for(status)[1]));
}

} // verus!
