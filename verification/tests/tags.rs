use std::collections::HashSet;
use winflow::commands::handle_cmd;
use winflow::config::Config;
use winflow::overlay::{init_app, AppInner, Step};
use winflow::state::{Core, Item, MainCmd};

const MS: u64 = 1_000_000;

fn start() -> (AppInner, Core) {
    let mut core = Core::new(true, 0);
    let app = init_app(Config::default(), &mut core, 0);
    (app, core)
}

fn alive(ids: &[u32]) -> HashSet<u32> {
    ids.iter().copied().collect()
}

fn hint(app: &AppInner) -> &str {
    app.hint.as_ref().map(|h| h.text.as_str()).unwrap_or("")
}

fn item(id: u32) -> Item {
    Item {
        id,
        pid: 1,
        owner: "o".to_string(),
        title: "t".to_string(),
        aspect: 1_000_000,
        x: 0,
        y: 0,
        w: 100_000,
        h: 100_000,
        n_same_pid: 1,
    }
}

#[test]
fn tags_are_added_and_removed() {
    let (mut app, mut core) = start();
    let all = alive(&[1, 2, 3, 4]);
    app.toggle_tag(&mut core, 1, &all, 5 * MS);
    assert_eq!(core.tags, [Some(1), None, None]);
    assert_eq!(hint(&app), "已添加标签 1（⌘⇧1 快速切换）");
    assert_eq!(app.hint.as_ref().unwrap().until, 2005 * MS);
    app.toggle_tag(&mut core, 2, &all, 0);
    app.toggle_tag(&mut core, 3, &all, 0);
    assert_eq!(core.tags, [Some(1), Some(2), Some(3)]);
    app.toggle_tag(&mut core, 4, &all, 0);
    assert_eq!(core.tags, [Some(1), Some(2), Some(3)]);
    assert_eq!(hint(&app), "标签已达上限（最多 3 个）");
    // Removing leaves a gap that the next tag fills.
    app.toggle_tag(&mut core, 2, &all, 0);
    assert_eq!(core.tags, [Some(1), None, Some(3)]);
    assert_eq!(hint(&app), "已移除标签 2");
    app.toggle_tag(&mut core, 4, &all, 0);
    assert_eq!(core.tags, [Some(1), Some(4), Some(3)]);
}

#[test]
fn closed_windows_give_up_their_slot() {
    let (mut app, mut core) = start();
    core.tags = [Some(1), Some(2), Some(3)];
    app.toggle_tag(&mut core, 9, &alive(&[2, 3, 9]), 0);
    assert_eq!(core.tags, [Some(9), Some(2), Some(3)]);
}

#[test]
fn toggling_twice_gives_back_the_tags() {
    let (mut app, mut core) = start();
    core.tags = [Some(1), None, Some(3)];
    let all = alive(&[1, 3, 7]);
    app.toggle_tag(&mut core, 7, &all, 0);
    app.toggle_tag(&mut core, 7, &all, 0);
    assert_eq!(core.tags, [Some(1), None, Some(3)]);
}

#[test]
fn unset_tags_give_a_hint() {
    let (mut app, mut core) = start();
    assert!(matches!(handle_cmd(&mut app, &mut core, MainCmd::ActivateTag(2), 0), Step::Redraw));
    assert_eq!(hint(&app), "标签 2 未设置（⌘⇧2）");
    assert!(matches!(handle_cmd(&mut app, &mut core, MainCmd::ActivateTag(4), 0), Step::Redraw));
    assert_eq!(hint(&app), "标签 4 未设置（⌘⇧4）");
    core.tags[1] = Some(20);
    assert!(matches!(
        handle_cmd(&mut app, &mut core, MainCmd::ActivateTag(2), 0),
        Step::FindTag(2, 20)
    ));
}

#[test]
fn tagged_window_is_switched_to() {
    let (mut app, mut core) = start();
    core.active = Some(1);
    let items = vec![item(1), item(20)];
    let s = app.switch_to_tag(&mut core, 20, &items, 9).unwrap();
    assert_eq!(s.item.id, 20);
    assert_eq!((core.active, core.prev), (Some(20), Some(1)));
    assert!(app.switch_to_tag(&mut core, 21, &items, 9).is_none());
    assert_eq!(core.active, Some(20));
}

#[test]
fn missing_tagged_window() {
    let (mut app, mut core) = start();
    core.tags = [Some(5), Some(6), None];
    app.tag_not_found(&mut core, 1, 5, true, 0);
    assert_eq!(core.tags, [Some(5), Some(6), None]);
    assert_eq!(hint(&app), "标签 1：窗口不在当前桌面");
    app.tag_not_found(&mut core, 1, 5, false, 0);
    assert_eq!(core.tags, [None, Some(6), None]);
    assert_eq!(hint(&app), "标签 1：窗口已关闭，已清除该标签");
    // The tag belongs to another window by now.
    app.tag_not_found(&mut core, 2, 5, false, 0);
    assert_eq!(core.tags, [None, Some(6), None]);
}

#[test]
fn hint_command_shows_its_text() {
    let (mut app, mut core) = start();
    let cmd = MainCmd::TagHint("hello".to_string());
    assert!(matches!(handle_cmd(&mut app, &mut core, cmd, MS), Step::Redraw));
    assert_eq!(hint(&app), "hello");
    assert_eq!(app.hint.as_ref().unwrap().until, 2001 * MS);
}
