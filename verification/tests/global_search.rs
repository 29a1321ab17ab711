use ronin::global_search::{
    artifact_document, group_hits_by_kind, matches_filters, memory_document, search,
    thread_message_document, thread_title_document, SearchContentKind, SearchDatePreset,
    SearchFilters, SearchPanelState,
};

fn corpus() -> Vec<ronin::global_search::SearchDocument> {
    vec![
        thread_title_document("t1", "Rust borrow checker", Some("ollama"), Some("llama3"), 300),
        thread_message_document(
            "t1",
            "m1",
            "Rust borrow checker",
            "The borrow checker rejects this code",
            Some("ollama"),
            Some("llama3"),
            200,
        ),
        artifact_document("a1", "Notes", "Nothing about borrow here? yes borrow", "t2", 100),
        memory_document("mem1", "Prefers tea", "likes green tea", 50),
    ]
}

#[test]
fn blank_query_returns_no_hits() {
    assert!(search("   ", &corpus(), &SearchFilters::default()).is_empty());
}

#[test]
fn title_matches_rank_before_body_matches() {
    let hits = search("BORROW", &corpus(), &SearchFilters::default());
    let ids: Vec<&str> = hits.iter().map(|h| h.document.id.as_str()).collect();
    assert_eq!(ids, vec!["m1", "thread:t1", "a1"]);
    assert_eq!(hits[0].score, 110);
    assert_eq!(hits[1].score, 100);
    assert_eq!(hits[2].score, 10);
    assert_eq!(hits[1].snippet, "Rust borrow checker");
}

#[test]
fn body_snippet_is_cut_around_the_match_with_ellipses() {
    let body = format!("{}needle{}", "x".repeat(40), "y".repeat(40));
    let doc = memory_document("m", "t", &body, 0);
    let hits = search("needle", &[doc], &SearchFilters::default());
    assert_eq!(hits.len(), 1);
    assert_eq!(hits[0].snippet, format!("…{}needle{}…", "x".repeat(24), "y".repeat(24)));
}

#[test]
fn filters_restrict_kind_provider_and_dates() {
    let docs = corpus();
    let mut f = SearchFilters::default();
    f.kinds = vec![SearchContentKind::Memory];
    assert!(matches_filters(&docs[3], &f));
    assert!(!matches_filters(&docs[0], &f));
    let mut g = SearchFilters::default();
    g.provider = Some("ollama".to_string());
    assert!(matches_filters(&docs[0], &g));
    assert!(!matches_filters(&docs[2], &g));
    g.provider = Some("OLLAMA".to_string());
    assert!(!matches_filters(&docs[0], &g));
    let mut m = SearchFilters::default();
    m.model = Some("llama3".to_string());
    assert!(matches_filters(&docs[0], &m));
    m.model = Some("Llama3".to_string());
    assert!(!matches_filters(&docs[0], &m));
    let mut h = SearchFilters::default();
    h.created_after_ms = Some(150);
    h.created_before_ms = Some(250);
    assert!(matches_filters(&docs[1], &h));
    assert!(!matches_filters(&docs[0], &h));
}

#[test]
fn date_presets_set_lower_bound_from_now() {
    let mut f = SearchFilters::default();
    f.created_before_ms = Some(5);
    SearchDatePreset::Last7Days.apply(&mut f, 1_000_000_000);
    assert_eq!(f.created_after_ms, Some(1_000_000_000 - 7 * 86_400_000));
    assert_eq!(f.created_before_ms, None);
    SearchDatePreset::Any.apply(&mut f, 1);
    assert_eq!(f.created_after_ms, None);
}

#[test]
fn panel_selection_wraps_both_ways() {
    let mut p = SearchPanelState::default();
    p.move_selection(-1, 3);
    assert_eq!(p.selected(), 2);
    p.move_selection(2, 3);
    assert_eq!(p.selected(), 1);
    p.set_query("abc");
    assert_eq!(p.selected(), 0);
    assert_eq!(p.query(), "abc");
    p.toggle();
    assert!(p.is_open());
    p.set_date_preset(SearchDatePreset::LastYear, 365 * 86_400_000 + 5);
    assert_eq!(p.filters().created_after_ms, Some(5));
    p.filters_mut().kinds.push(SearchContentKind::Thread);
    assert_eq!(p.filters().kinds, vec![SearchContentKind::Thread]);
}

#[test]
fn groups_come_in_threads_artifacts_memories_order() {
    let hits = search("e", &corpus(), &SearchFilters::default());
    let groups = group_hits_by_kind(&hits);
    let kinds: Vec<SearchContentKind> = groups.iter().map(|g| g.0).collect();
    assert_eq!(
        kinds,
        vec![SearchContentKind::Thread, SearchContentKind::Artifact, SearchContentKind::Memory]
    );
    assert_eq!(SearchContentKind::Memory.label(), "Memories");
}

#[test]
fn equal_scores_order_by_age_then_id() {
    let docs = vec![
        memory_document("b", "cat", "", 5),
        memory_document("a", "cat", "", 5),
        memory_document("c", "cat", "", 1),
    ];
    let hits = search("cat", &docs, &SearchFilters::default());
    let ids: Vec<&str> = hits.iter().map(|h| h.document.id.as_str()).collect();
    assert_eq!(ids, vec!["c", "a", "b"]);
}
