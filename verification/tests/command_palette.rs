use ronin::command_palette::{
    command_catalog, filter_items, quick_items, thread_items, CommandPaletteState, PaletteAction,
    PaletteMode,
};
use ronin::icons::IconName;

#[test]
fn command_catalog_lists_thirteen_commands_in_order() {
    let items = command_catalog();
    assert_eq!(items.len(), 13);
    assert_eq!(items[0].label, "New chat");
    assert_eq!(items[0].keys, Some("Ctrl+N"));
    assert_eq!(items[0].icon, IconName::MessageSquarePlus);
    assert_eq!(items[5].label, "Capture screenshot");
    assert_eq!(items[5].keys, None);
    assert_eq!(items[12].action, PaletteAction::OpenArtifacts);
    assert!(items.iter().all(|i| i.thread_index.is_none()));
}

#[test]
fn filter_items_blank_query_keeps_everything() {
    let items = command_catalog();
    assert_eq!(filter_items(&items, "   ").len(), 13);
}

#[test]
fn filter_items_matches_case_insensitive_substring() {
    let items = command_catalog();
    let zoom = filter_items(&items, " ZOOM ");
    let labels: Vec<&str> = zoom.iter().map(|i| i.label.as_str()).collect();
    assert_eq!(labels, vec!["Zoom in", "Zoom out", "Reset zoom"]);
    assert!(filter_items(&items, "nothing-like-this").is_empty());
}

#[test]
fn quick_items_put_threads_before_three_commands() {
    let items = quick_items(&[(4, "Alpha"), (9, "Beta")]);
    assert_eq!(items.len(), 5);
    assert_eq!(items[0].label, "Alpha");
    assert_eq!(items[0].thread_index, Some(4));
    assert_eq!(items[0].action, PaletteAction::SelectThread);
    assert_eq!(items[0].icon, IconName::File);
    assert_eq!(items[1].thread_index, Some(9));
    assert_eq!(items[2].action, PaletteAction::NewThread);
    assert_eq!(items[3].action, PaletteAction::OpenSearch);
    assert_eq!(items[4].action, PaletteAction::OpenSettings);
    assert_eq!(thread_items(&[]).len(), 0);
}

#[test]
fn palette_state_open_close_and_selection_clamp() {
    let mut s = CommandPaletteState::new();
    assert!(!s.is_open());
    s.open_commands();
    assert!(s.is_open());
    assert_eq!(s.mode(), PaletteMode::Commands);
    s.set_query("zo");
    assert_eq!(s.query(), "zo");
    s.move_sel(5, 3);
    assert_eq!(s.selected_index(), 2);
    s.move_sel(-10, 3);
    assert_eq!(s.selected_index(), 0);
    s.move_sel(1, 0);
    assert_eq!(s.selected_index(), 0);
    s.close();
    assert!(!s.is_open());
    assert_eq!(s.query(), "");
    s.open_quick();
    assert_eq!(s.mode(), PaletteMode::Quick);
    let d = CommandPaletteState::default();
    assert_eq!(d, CommandPaletteState::new());
}
