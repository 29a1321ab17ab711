use ronin::attachment_size::{attachment_size_warning, AttachmentSizeWarnState};

#[test]
fn warning_appears_only_over_threshold() {
    assert!(attachment_size_warning(100, 100).is_none());
    let w = attachment_size_warning(101, 100).expect("warning");
    assert_eq!(w.total_chars, 101);
    assert_eq!(w.estimated_tokens, 26);
    assert_eq!(w.threshold_chars, 100);
    assert_eq!(
        w.message,
        "Attachments are large (~26 tokens / 101 chars; warning at ~25 tokens). Proceed, or remove attachments to free context."
    );
}

#[test]
fn acknowledgement_survives_same_total_but_not_new_total() {
    let mut s = AttachmentSizeWarnState::default();
    s.evaluate(500, 100);
    assert!(s.should_block_send());
    s.acknowledge_and_proceed();
    assert!(!s.should_block_send());
    s.evaluate(500, 100);
    assert!(!s.should_block_send());
    s.evaluate(600, 100);
    assert!(s.should_block_send());
    s.clear();
    assert!(s.warning().is_none());
    assert!(!s.should_block_send());
}

#[test]
fn acknowledging_without_warning_does_nothing() {
    let mut s = AttachmentSizeWarnState::default();
    s.acknowledge_and_proceed();
    s.evaluate(500, 100);
    assert!(s.should_block_send());
}
