use ronin::context_indicator::{
    escalate_for_omission, estimate_tokens_from_chars, format_token_count, project_context,
    resolve_model_context_window, ContextEstimateInput, ContextFillLevel,
};

#[test]
fn token_estimate_and_compact_counts() {
    assert_eq!(estimate_tokens_from_chars(0), 0);
    assert_eq!(estimate_tokens_from_chars(9), 3);
    assert_eq!(format_token_count(850), "850");
    assert_eq!(format_token_count(1234), "1.2k");
    assert_eq!(format_token_count(2000), "2k");
    assert_eq!(format_token_count(128_000), "128k");
    assert_eq!(format_token_count(2_400_000), "2M");
}

#[test]
fn model_windows_resolve_by_family() {
    assert_eq!(resolve_model_context_window("gpt-4o-mini"), Some(128_000));
    assert_eq!(resolve_model_context_window("Llama3.1:8b"), Some(128_000));
    assert_eq!(resolve_model_context_window("unknown-model"), None);
}

#[test]
fn projection_counts_history_that_fits() {
    let msgs = vec![String::from("hello"), String::from("world!!")];
    let p = project_context(ContextEstimateInput {
        message_contents: &msgs,
        composer_text: "hi",
        attachment_chars: 0,
        system_prompt_chars: 10,
        model_name: Some("gpt-4o"),
        max_messages: 10,
        max_chars: 100,
    });
    assert_eq!(p.used_chars, 24);
    assert_eq!(p.estimated_tokens, 6);
    assert_eq!(p.limit_tokens, Some(128_000));
    assert_eq!(p.limit_chars, 512_000);
    assert!(!p.messages_omitted);
    assert_eq!(p.summary_label, "~6 / 128k tokens");
    assert_eq!(p.omission_label, None);
}

#[test]
fn projection_reports_omission_at_message_cap() {
    let msgs = vec![String::from("hello"), String::from("world!!")];
    let p = project_context(ContextEstimateInput {
        message_contents: &msgs,
        composer_text: "hi",
        attachment_chars: 0,
        system_prompt_chars: 10,
        model_name: None,
        max_messages: 2,
        max_chars: 100,
    });
    assert_eq!(p.used_chars, 19);
    assert_eq!(p.estimated_tokens, 5);
    assert_eq!(p.limit_tokens, None);
    assert_eq!(p.limit_chars, 112);
    assert!(p.messages_omitted);
    assert_eq!(p.summary_label, "~5 / 28 tokens");
    assert_eq!(p.omission_label, Some("Older messages will be omitted"));
}

#[test]
fn projection_omits_when_draft_exceeds_char_cap() {
    let msgs: Vec<String> = Vec::new();
    let p = project_context(ContextEstimateInput {
        message_contents: &msgs,
        composer_text: "abcdef",
        attachment_chars: 4,
        system_prompt_chars: 0,
        model_name: None,
        max_messages: 10,
        max_chars: 8,
    });
    assert_eq!(p.used_chars, 10);
    assert!(p.messages_omitted);
}

#[test]
fn omission_means_critical() {
    assert_eq!(
        escalate_for_omission(ContextFillLevel::Comfortable, true),
        ContextFillLevel::Critical
    );
    assert_eq!(
        escalate_for_omission(ContextFillLevel::Elevated, true),
        ContextFillLevel::Critical
    );
    assert_eq!(
        escalate_for_omission(ContextFillLevel::Elevated, false),
        ContextFillLevel::Elevated
    );
    assert_eq!(
        escalate_for_omission(ContextFillLevel::Comfortable, false),
        ContextFillLevel::Comfortable
    );
    assert_eq!(
        escalate_for_omission(ContextFillLevel::Critical, true),
        ContextFillLevel::Critical
    );
}
