use ronin::composer_pickers::{
    at_attachment_catalog, detect_active_picker, filter_picker_items, move_picker_selection,
    slash_action_catalog, AtAttachmentKind, PickerKind, SlashActionKind,
};

#[test]
fn at_picker_opens_for_at_token_and_filters() {
    let p = detect_active_picker("see @cl", 7).expect("picker");
    assert_eq!(p.kind, PickerKind::AtAttachment);
    assert_eq!(p.token_start, 4);
    assert_eq!(p.query, "cl");
    assert_eq!(p.items.len(), 1);
    assert_eq!(p.items[0].insert, "@clipboard");
    assert_eq!(p.items[0].at_kind(), Some(AtAttachmentKind::Clipboard));
    assert_eq!(p.items[0].slash_kind(), None);
}

#[test]
fn at_picker_closes_once_payload_command_is_typed() {
    assert!(detect_active_picker("@file:src", 9).is_none());
    assert!(detect_active_picker("user@host", 9).is_none());
}

#[test]
fn slash_picker_requires_single_slash() {
    let p = detect_active_picker("/mo", 3).expect("picker");
    assert_eq!(p.kind, PickerKind::SlashAction);
    assert_eq!(p.items.len(), 1);
    assert_eq!(p.items[0].slash_kind(), Some(SlashActionKind::SwitchModel));
    assert!(detect_active_picker("/a/b", 4).is_none());
    assert!(detect_active_picker("a/b", 3).is_none());
}

#[test]
fn filter_matches_insert_prefix_label_or_insert_substring() {
    assert_eq!(filter_picker_items(slash_action_catalog(), "").len(), 6);
    let clip = filter_picker_items(slash_action_catalog(), "CLIPBOARD");
    assert_eq!(clip.len(), 3);
    let scr = filter_picker_items(at_attachment_catalog(), "capture");
    assert_eq!(scr.len(), 1);
    assert_eq!(scr[0].insert, "@screenshot");
}

#[test]
fn picker_selection_wraps() {
    assert_eq!(move_picker_selection(0, 3, -1), 2);
    assert_eq!(move_picker_selection(2, 3, 1), 0);
    assert_eq!(move_picker_selection(1, 3, 1), 2);
    assert_eq!(move_picker_selection(5, 0, 1), 0);
}
