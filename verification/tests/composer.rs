use ronin::composer::ComposerEditor;

fn editor_with(text: &str) -> ComposerEditor {
    let mut ed = ComposerEditor::new();
    ed.insert_str(text);
    ed
}

#[test]
fn new_editor_is_empty_with_one_visual_line() {
    let ed = ComposerEditor::new();
    assert_eq!(ed.text(), "");
    assert_eq!(ed.cursor(), 0);
    assert_eq!(ed.selection(), None);
    assert_eq!(ed.visual_lines(), vec![(0, 0)]);
    assert!(ed.cursor_visible);
}

#[test]
fn insert_and_backspace_handle_multibyte_chars() {
    let mut ed = editor_with("hé");
    assert_eq!(ed.text(), "hé");
    assert_eq!(ed.cursor(), 3);
    ed.delete_before_cursor();
    assert_eq!(ed.text(), "h");
    assert_eq!(ed.cursor(), 1);
    ed.insert_char('€');
    assert_eq!(ed.text(), "h€");
    assert_eq!(ed.cursor(), 4);
    ed.delete_before_cursor();
    assert_eq!(ed.text(), "h");
    assert_eq!(ed.cursor(), 1);
}

#[test]
fn delete_at_cursor_removes_next_char() {
    let mut ed = editor_with("abc");
    ed.move_left();
    ed.move_left();
    assert_eq!(ed.cursor(), 1);
    ed.delete_at_cursor();
    assert_eq!(ed.text(), "ac");
    assert_eq!(ed.cursor(), 1);
    ed.move_right();
    ed.delete_at_cursor();
    assert_eq!(ed.text(), "ac");
}

#[test]
fn word_movement_and_delete_prev_word() {
    let mut ed = editor_with("hello big world");
    ed.move_word_left();
    assert_eq!(ed.cursor(), 10);
    ed.move_word_left();
    assert_eq!(ed.cursor(), 6);
    ed.move_word_right();
    assert_eq!(ed.cursor(), 10);
    ed.delete_prev_word();
    assert_eq!(ed.text(), "hello world");
    assert_eq!(ed.cursor(), 6);
}

#[test]
fn select_all_then_insert_replaces_everything() {
    let mut ed = editor_with("draft");
    ed.select_all();
    assert_eq!(ed.selection(), Some((0, 5)));
    assert_eq!(ed.selected_text(), Some("draft"));
    ed.insert_str("final");
    assert_eq!(ed.text(), "final");
    assert_eq!(ed.selection(), None);
    assert_eq!(ed.cursor(), 5);
}

#[test]
fn extend_left_and_right_track_selection() {
    let mut ed = editor_with("abcd");
    ed.extend_left();
    assert_eq!(ed.selection(), Some((3, 4)));
    assert_eq!(ed.cursor(), 3);
    assert_eq!(ed.selected_text(), Some("d"));
    ed.extend_left();
    assert_eq!(ed.selection(), None);
    ed.extend_right();
    assert_eq!(ed.selection(), Some((3, 4)));
    ed.delete_before_cursor();
    assert_eq!(ed.text(), "abc");
    assert_eq!(ed.cursor(), 3);
}

#[test]
fn visual_lines_split_on_newlines_and_wrap() {
    let mut ed = editor_with("abcde\n\nxy");
    ed.set_wrap_chars(2);
    assert_eq!(ed.visual_lines(), vec![(0, 2), (2, 4), (4, 5), (6, 6), (7, 9)]);
    assert_eq!(ed.visual_line_index(3), 1);
    assert_eq!(ed.visual_line_index(6), 3);
    assert_eq!(ed.visual_line_index(100), 4);
    ed.set_wrap_chars(0);
    assert_eq!(ed.visual_lines(), vec![(0, 1), (1, 2), (2, 3), (3, 4), (4, 5), (6, 6), (7, 8), (8, 9)]);
}

#[test]
fn visual_lines_wrap_counts_chars_not_bytes() {
    let mut ed = editor_with("ééé");
    ed.set_wrap_chars(2);
    assert_eq!(ed.visual_lines(), vec![(0, 4), (4, 6)]);
}

#[test]
fn move_up_and_down_keep_the_column() {
    let mut ed = editor_with("abcd\nxy\nlonger");
    assert_eq!(ed.cursor(), 14);
    ed.move_up();
    assert_eq!(ed.cursor(), 7);
    ed.move_up();
    assert_eq!(ed.cursor(), 2);
    ed.move_up();
    assert_eq!(ed.cursor(), 0);
    ed.move_down();
    assert_eq!(ed.cursor(), 5);
    ed.move_down();
    assert_eq!(ed.cursor(), 8);
    ed.move_down();
    assert_eq!(ed.cursor(), 14);
}

#[test]
fn extend_up_selects_to_the_line_above() {
    let mut ed = editor_with("abcd\nxy");
    ed.extend_up();
    assert_eq!(ed.cursor(), 2);
    assert_eq!(ed.selection(), Some((2, 7)));
    ed.extend_down();
    assert_eq!(ed.selection(), Some((2, 7)));
}

#[test]
fn replace_range_sets_cursor_after_replacement() {
    let mut ed = editor_with("see @art now");
    ed.replace_range(4, 8, "@artifact:");
    assert_eq!(ed.text(), "see @artifact: now");
    assert_eq!(ed.cursor(), 14);
    assert_eq!(ed.selection(), None);
}

#[test]
fn set_and_take_text_clamp_and_reset() {
    let mut ed = editor_with("abcdef");
    ed.set_text(String::from("ab"));
    assert_eq!(ed.cursor(), 2);
    let t = ed.take_text();
    assert_eq!(t, "ab");
    assert_eq!(ed.text(), "");
    assert_eq!(ed.cursor(), 0);
}

#[test]
fn drag_to_end_selects_from_anchor() {
    let mut ed = editor_with("hello");
    assert!(!ed.drag_to_end());
    ed.move_left();
    ed.move_left();
    ed.click_at_end();
    assert!(ed.drag_to_end());
    assert_eq!(ed.selection(), Some((3, 5)));
    assert_eq!(ed.cursor(), 5);
    ed.end_drag();
    assert!(!ed.drag_to_end());
}

#[test]
fn key_dispatch_consumes_editing_keys() {
    let mut ed = editor_with("one two");
    assert!(ed.on_key_down("left", true, false, false));
    assert_eq!(ed.cursor(), 4);
    assert!(ed.on_key_down("backspace", true, false, false));
    assert_eq!(ed.text(), "two");
    assert!(ed.on_key_down("end", false, false, false));
    assert_eq!(ed.cursor(), 3);
    assert!(ed.on_key_down("home", false, true, false));
    assert_eq!(ed.selection(), Some((0, 3)));
    assert!(ed.on_key_down("a", true, false, false));
    assert_eq!(ed.selection(), Some((0, 3)));
    assert!(!ed.on_key_down("a", false, false, false));
    assert!(!ed.on_key_down("left", false, false, true));
    assert!(!ed.on_key_down("enter", false, false, false));
    assert!(ed.on_key_down("delete", false, false, false));
    assert_eq!(ed.text(), "");
}

#[test]
fn cursor_at_maps_line_and_char_to_bytes() {
    let mut ed = editor_with("héllo\nab");
    ed.set_wrap_chars(3);
    assert_eq!(ed.visual_lines(), vec![(0, 4), (4, 6), (7, 9)]);
    assert_eq!(ed.cursor_at(0, 2), 3);
    assert_eq!(ed.cursor_at(0, 10), 4);
    assert_eq!(ed.cursor_at(2, 1), 8);
    assert_eq!(ed.cursor_at(5, 0), 9);
}

#[test]
fn backspace_undoes_typed_char() {
    let mut ed = editor_with("ab");
    ed.move_left();
    ed.insert_char('ß');
    assert_eq!(ed.text(), "aßb");
    ed.delete_before_cursor();
    assert_eq!(ed.text(), "ab");
    assert_eq!(ed.cursor(), 1);
}
