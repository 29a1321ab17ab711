use ronin::frame_profile::slowest_phase;
use ronin::frame_profile::distinct_labels;
use ronin::frame_profile::caret_edge_delay_ms;

#[test]
fn caret_edge_lands_on_the_next_visibility_change() {
    assert_eq!(caret_edge_delay_ms(0, 800, 480), 480);
    assert_eq!(caret_edge_delay_ms(100, 800, 480), 380);
    assert_eq!(caret_edge_delay_ms(480, 800, 480), 320);
    assert_eq!(caret_edge_delay_ms(799, 800, 480), 1);
}

#[test]
fn caret_edge_clamps_zero_cycle_and_long_visible_time() {
    assert_eq!(caret_edge_delay_ms(5, 0, 0), 1);
    assert_eq!(caret_edge_delay_ms(100, 800, 5000), 700);
}

#[test]
fn slowest_phase_prefers_the_later_of_equal_phases() {
    assert_eq!(slowest_phase(&[]), ("none", 0));
    assert_eq!(slowest_phase(&[("a", 5), ("b", 9), ("c", 9), ("tail", 1)]), ("c", 9));
    assert_eq!(slowest_phase(&[("a", 0)]), ("a", 0));
}

#[test]
fn labels_keep_first_appearance_order() {
    assert_eq!(distinct_labels(&["b", "a", "b", "c", "a"]), vec!["b", "a", "c"]);
    assert!(distinct_labels(&[]).is_empty());
}
