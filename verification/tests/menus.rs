use ronin::chrome::{
    message_overflow_items, message_overflow_items_with_flags, thread_overflow_items,
    window_overflow_items,
};
use ronin::companion::{companion_sprite, reaction_hold, CompanionMood};
use ronin::icons::IconName;
use ronin::plus_menu::plus_menu_items;

#[test]
fn window_and_thread_overflow_catalogs() {
    let w = window_overflow_items();
    assert_eq!(w.len(), 6);
    assert_eq!(w[0].id, "settings");
    assert_eq!(w[5].keys, Some("Ctrl+B"));
    let t = thread_overflow_items();
    let ids: Vec<&str> = t.iter().map(|i| i.id).collect();
    assert_eq!(ids, vec!["rename", "export", "delete"]);
    assert_eq!(t[2].icon, IconName::X);
}

#[test]
fn message_overflow_depends_on_role_and_status() {
    let ids = |v: Vec<ronin::chrome::OverflowItem>| v.iter().map(|i| i.id).collect::<Vec<_>>();
    assert_eq!(
        ids(message_overflow_items(true, false, true)),
        vec!["copy", "save-memory", "save-artifact", "regenerate"]
    );
    assert_eq!(ids(message_overflow_items(false, false, false)), vec!["copy", "edit"]);
    assert_eq!(
        ids(message_overflow_items(true, true, false)),
        vec!["copy", "save-memory", "save-artifact", "retry"]
    );
    assert_eq!(
        ids(message_overflow_items_with_flags(true, true, true, false, false, false, true, true)),
        vec!["copy", "regenerate", "edit"]
    );
}

#[test]
fn plus_menu_optional_rows() {
    assert_eq!(plus_menu_items(false, false).len(), 5);
    let all = plus_menu_items(true, true);
    assert_eq!(all.len(), 7);
    assert_eq!(all[5].insert, "@artifact:");
    assert_eq!(all[6].insert, "@memory:");
    assert_eq!(plus_menu_items(true, false)[5].label, "Attach memory");
}

#[test]
fn companion_idle_blinks_in_sixth_period() {
    assert_eq!(companion_sprite(CompanionMood::Idle, 0), "companion/idle-0.svg");
    assert_eq!(companion_sprite(CompanionMood::Idle, 5 * 2800), "companion/idle-1.svg");
    assert_eq!(companion_sprite(CompanionMood::Idle, 6 * 2800), "companion/idle-0.svg");
    assert_eq!(companion_sprite(CompanionMood::Sent, 5 * 2800), "companion/sent.svg");
    assert_eq!(companion_sprite(CompanionMood::NewChat, 1), "companion/new-chat.svg");
    assert_eq!(reaction_hold(), 1400);
}
