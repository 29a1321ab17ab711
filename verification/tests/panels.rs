use ronin::artifacts_panel::{
    artifacts_empty_state, content_snippet, save_code_block_as_snippet_label,
    snippet_title_from_language, ArtifactsPanelState, ARTIFACTS_EMPTY_STATE,
};
use ronin::memory_management::{
    active_memories_for_context, format_created_date, group_memory_cards, memory_context_block,
    memory_context_indicator, memory_preview_card, merge_context_blocks, MemoryGroup,
    MemoryListItem, MemoryManagementState,
};
use ronin::visual_polish::{
    cursor_visible_at, empty_state, error_presentation, generating_label, streaming_motion,
    EmptyStateKind, ErrorKind,
};

fn items() -> Vec<MemoryListItem> {
    vec![
        MemoryListItem::from_fields("m1", "Coffee", "Likes flat whites", true, true, 0),
        MemoryListItem::from_fields("m2", "Work", "Rust at ACME", true, false, 86_400_000),
        MemoryListItem::from_fields("m3", "Editor", "Uses helix", false, true, 1_700_000_000_000),
        MemoryListItem::from_fields("m4", "City", "Lives in Oslo", true, true, -1),
    ]
}

#[test]
fn memory_cards_group_profile_first() {
    let it = items();
    let groups = group_memory_cards(&it);
    assert_eq!(groups.len(), 2);
    assert_eq!(groups[0].0, MemoryGroup::Profile);
    assert_eq!(groups[0].1.len(), 3);
    assert_eq!(groups[1].1[0].id, "m2");
    let card = memory_preview_card(&it[2]);
    assert_eq!(card.status_label, "Disabled");
    assert!(card.is_profile);
    assert_eq!(card.created_label, "2023-11-14");
    assert_eq!(format_created_date(0), "1970-01-01");
    assert_eq!(format_created_date(86_400_000), "1970-01-02");
    assert_eq!(format_created_date(-1), "1969-12-31");
}

#[test]
fn profile_memories_feed_the_context() {
    let it = items();
    let active: Vec<&str> = active_memories_for_context(&it).iter().map(|m| m.id.as_str()).collect();
    assert_eq!(active, vec!["m1", "m4"]);
    assert_eq!(
        memory_context_block(&it),
        Some("[Profile memory: Coffee]\nLikes flat whites\n\n[Profile memory: City]\nLives in Oslo".to_string())
    );
    let ind = memory_context_indicator(&it).expect("indicator");
    assert_eq!(ind.active_count, 2);
    assert_eq!(ind.summary_label, "2 memories active");
    assert_eq!(ind.detail_label, "Coffee, City");
    assert_eq!(memory_context_indicator(&it[1..2]), None);
    assert_eq!(merge_context_blocks(Some("m"), Some("a")), Some("m\n\na".to_string()));
    assert_eq!(merge_context_blocks(Some(""), Some("a")), Some("a".to_string()));
    assert_eq!(merge_context_blocks(Some("m"), None), Some("m".to_string()));
    assert_eq!(merge_context_blocks(Some(""), Some("")), None);
    let mut st = MemoryManagementState::new();
    assert!(!st.is_open());
    st.toggle();
    assert!(st.is_open());
}

#[test]
fn artifact_panel_delete_and_edit_flow() {
    let mut p = ArtifactsPanelState::new();
    assert_eq!(p.confirm_delete(), None);
    p.request_delete("a1");
    assert_eq!(p.pending_delete_id(), Some("a1"));
    assert_eq!(p.confirm_delete(), Some("a1".to_string()));
    assert_eq!(p.pending_delete_id(), None);
    p.request_delete("a2");
    p.cancel_delete();
    assert_eq!(p.pending_delete_id(), None);
    p.begin_edit("a3", "Title", "Body");
    p.set_edit_title("New");
    p.set_edit_content("Text");
    let d = p.commit_edit().expect("draft");
    assert_eq!((d.id.as_str(), d.title.as_str(), d.content.as_str()), ("a3", "New", "Text"));
    assert!(p.editing().is_none());
    p.begin_edit("a4", "t", "c");
    p.cancel_edit();
    assert!(p.commit_edit().is_none());
}

#[test]
fn artifact_labels_and_snippets() {
    assert_eq!(save_code_block_as_snippet_label(), "Save snippet");
    assert_eq!(snippet_title_from_language(Some(" rust ")), "rust snippet");
    assert_eq!(snippet_title_from_language(Some("  ")), "code snippet");
    assert_eq!(snippet_title_from_language(None), "code snippet");
    assert_eq!(content_snippet("héllo", 2), "hé…");
    assert_eq!(content_snippet("hi", 2), "hi");
    assert_eq!(artifacts_empty_state(&[]), Some(ARTIFACTS_EMPTY_STATE));
}

#[test]
fn empty_and_error_presentations() {
    let e = empty_state(EmptyStateKind::NoModelsInstalled);
    assert_eq!(e.title, "No models installed");
    assert_eq!(
        e.display_text(),
        "◻\nNo models installed\nOllama is reachable but has no models to chat with.\nTry: ollama pull llama3.2"
    );
    let err = error_presentation(ErrorKind::StreamFailure, "socket closed");
    assert_eq!(err.message, "socket closed");
    assert!(err.body_mentions_retry());
    assert!(!error_presentation(ErrorKind::Attachment, "too big").body_mentions_retry());
    assert!(error_presentation(ErrorKind::Provider, "please RETRY").body_mentions_retry());
    assert_eq!(
        err.display_text(),
        "!\nStream failed\nsocket closed\nRetry the message, or cancel and send again."
    );
}

#[test]
fn streaming_motion_timing() {
    let m = streaming_motion();
    assert!(cursor_visible_at(0, &m));
    assert!(!cursor_visible_at(480, &m));
    assert!(cursor_visible_at(800, &m));
    assert_eq!(generating_label(0, &m), "Generating response.");
    assert_eq!(generating_label(300, &m), "Generating response..");
    assert_eq!(generating_label(650, &m), "Generating response...");
    assert_eq!(generating_label(900, &m), "Generating response.");
}

#[test]
fn hidden_memories_never_change_the_injected_block() {
    let base = vec![
        MemoryListItem::from_fields("a", "Coffee", "Likes flat whites", true, true, 0),
        MemoryListItem::from_fields("b", "City", "Lives in Oslo", true, true, 0),
    ];
    let with_hidden = vec![
        MemoryListItem::from_fields("r", "Work", "Rust at ACME", true, false, 0),
        MemoryListItem::from_fields("a", "Coffee", "Likes flat whites", true, true, 0),
        MemoryListItem::from_fields("d", "Editor", "Uses helix", false, true, 0),
        MemoryListItem::from_fields("b", "City", "Lives in Oslo", true, true, 0),
    ];
    let expected = "[Profile memory: Coffee]\nLikes flat whites\n\n[Profile memory: City]\nLives in Oslo";
    assert_eq!(memory_context_block(&base).as_deref(), Some(expected));
    assert_eq!(memory_context_block(&with_hidden).as_deref(), Some(expected));
}
