use ronin::icons::{icon_label, icon_path, IconName};
use ronin::keyboard_nav::{
    shortcut_catalog, FocusRegion, KeyInput, KeyboardNavState, NavAction, ScrollDirection,
};

fn key(k: &str) -> KeyInput<'_> {
    KeyInput { key: k, control: false, shift: false, alt: false }
}

fn ctrl(k: &str) -> KeyInput<'_> {
    KeyInput { key: k, control: true, shift: false, alt: false }
}

#[test]
fn tab_cycles_focus_and_highlights_first_thread() {
    let mut nav = KeyboardNavState::new();
    assert_eq!(nav.focus(), FocusRegion::Composer);
    assert_eq!(nav.handle_key(key("tab"), 3), (true, NavAction::FocusChanged(FocusRegion::Sidebar)));
    assert_eq!(nav.thread_highlight(), Some(0));
    assert_eq!(nav.cycle_focus(false, 3), FocusRegion::Messages);
    assert_eq!(nav.cycle_focus(true, 3), FocusRegion::Sidebar);
    assert_eq!(nav.cycle_focus(true, 3), FocusRegion::Composer);
}

#[test]
fn sidebar_keys_move_and_select() {
    let mut nav = KeyboardNavState::new();
    nav.set_focus(FocusRegion::Sidebar, 2);
    assert_eq!(nav.handle_key(key("down"), 2), (true, NavAction::ThreadHighlightChanged { index: 1 }));
    assert_eq!(nav.handle_key(key("down"), 2), (true, NavAction::ThreadHighlightChanged { index: 1 }));
    assert_eq!(nav.handle_key(key("up"), 2), (true, NavAction::ThreadHighlightChanged { index: 0 }));
    assert_eq!(nav.handle_key(key("enter"), 2), (true, NavAction::SelectThread { index: 0 }));
    assert_eq!(nav.handle_key(key("x"), 2), (false, NavAction::Ignored));
    assert_eq!(nav.move_thread(5, 0), None);
    assert_eq!(nav.thread_highlight(), None);
    assert_eq!(nav.handle_key(key("enter"), 0), (true, NavAction::Ignored));
}

#[test]
fn global_chords_and_message_scrolling() {
    let mut nav = KeyboardNavState::new();
    assert_eq!(nav.handle_key(ctrl("/"), 1), (true, NavAction::ToggleHelp));
    assert!(nav.help_visible());
    assert_eq!(nav.handle_key(key("escape"), 1), (true, NavAction::ToggleHelp));
    assert!(!nav.help_visible());
    assert_eq!(nav.handle_key(ctrl("f"), 1), (true, NavAction::ToggleSearch));
    assert_eq!(nav.handle_key(ctrl("2"), 1), (true, NavAction::FocusChanged(FocusRegion::Messages)));
    assert_eq!(
        nav.handle_key(key("pagedown"), 1),
        (true, NavAction::ScrollMessages(ScrollDirection::Down))
    );
    assert_eq!(nav.handle_key(ctrl("pageup"), 1), (false, NavAction::Ignored));
    let alt = KeyInput { key: "tab", control: false, shift: false, alt: true };
    assert_eq!(nav.handle_key(alt, 1), (false, NavAction::Ignored));
    assert_eq!(nav.focus(), FocusRegion::Messages);
}

#[test]
fn catalogs_name_their_entries() {
    let hints = shortcut_catalog();
    assert_eq!(hints[0].keys, "Enter");
    assert_eq!(hints[0].action, "Send message");
    assert_eq!(icon_path(IconName::Refresh), "icons/refresh-cw.svg");
    assert_eq!(icon_label(IconName::EllipsisVertical), "More");
    assert_eq!(icon_label(IconName::Paperclip), "Attach");
}
