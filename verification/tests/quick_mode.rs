use ronin::quick_mode::{
    copy_answer_label, dismiss_hint, open_in_main_label, question_placeholder,
    quick_overlay_title, save_to_current_label, save_to_thread_label, QuickModeState, QuickPhase,
    QuickStreamEvent,
};

#[test]
fn quick_session_streams_then_completes() {
    let mut q = QuickModeState::new();
    assert_eq!(q.phase(), QuickPhase::Composing);
    assert!(!q.can_submit());
    q.set_question("  what is rust?  ");
    assert!(q.can_submit());
    q.begin_streaming();
    assert_eq!(q.phase(), QuickPhase::Streaming);
    assert!(!q.can_submit());
    q.apply_stream_event(QuickStreamEvent::Chunk("A systems ".to_string()));
    q.apply_stream_event(QuickStreamEvent::Chunk("language. ".to_string()));
    q.set_question("edited while streaming");
    assert_eq!(q.phase(), QuickPhase::Streaming);
    assert_eq!(q.answer(), "A systems language. ");
    q.apply_stream_event(QuickStreamEvent::Done);
    assert_eq!(q.phase(), QuickPhase::Complete);
    assert_eq!(q.copy_answer(), Some("A systems language.".to_string()));
    assert!(q.can_save());
    assert!(!q.can_open_in_main());
    q.mark_saved("thr_9");
    assert_eq!(q.saved_thread_id(), Some("thr_9"));
    assert!(q.can_open_in_main());
    q.apply_stream_event(QuickStreamEvent::Chunk("ignored".to_string()));
    assert_eq!(q.answer(), "A systems language. ");
}

#[test]
fn quick_session_failure_and_reset() {
    let mut q = QuickModeState::new();
    q.set_question("hi");
    q.begin_streaming();
    q.apply_stream_event(QuickStreamEvent::Error("offline".to_string()));
    assert_eq!(q.phase(), QuickPhase::Failed { message: "offline".to_string() });
    assert!(!q.can_save());
    assert_eq!(q.copy_answer(), None);
    q.set_question("again");
    assert_eq!(q.phase(), QuickPhase::Composing);
    assert_eq!(q.answer(), "");
    assert!(!q.is_dismissed());
    q.dismiss();
    assert!(q.is_dismissed());
}

#[test]
fn quick_mode_labels() {
    assert_eq!(copy_answer_label(), "Copy");
    assert!(!save_to_thread_label().is_empty());
    assert!(!save_to_current_label().is_empty());
    assert!(!open_in_main_label().is_empty());
    assert!(!dismiss_hint().is_empty());
    assert!(!question_placeholder().is_empty());
    assert!(!quick_overlay_title().is_empty());
}
