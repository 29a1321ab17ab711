use ronin::model_picker::{
    active_entry_index, build_picker_entries, entries_from_listed_providers,
    format_capability_summary, group_entries_by_provider, infer_model_capabilities,
    mark_active_entry, open_picker_at_active, picker_row_tone, refresh_picker_entries,
    ModelPickerAction, ModelPickerKey, ModelPickerState, ModelProviderKind, PickerRowTone,
};

fn lists() -> Vec<(ModelProviderKind, Vec<String>)> {
    vec![
        (ModelProviderKind::OpenAi, vec!["gpt-4o".to_string()]),
        (ModelProviderKind::Ollama, vec!["llama3.1:8b".to_string(), "llava:7b".to_string()]),
    ]
}

#[test]
fn provider_ids_round_trip() {
    assert_eq!(ModelProviderKind::Ollama.id(), "ollama");
    assert_eq!(ModelProviderKind::OpenAi.label(), "OpenAI");
    assert_eq!(ModelProviderKind::from_id("openai"), Some(ModelProviderKind::OpenAi));
    assert_eq!(ModelProviderKind::from_id("OpenAI"), None);
}

#[test]
fn capabilities_are_inferred_from_the_name() {
    let c = infer_model_capabilities("gpt-4o-mini");
    assert_eq!(c.context_window_tokens, Some(128_000));
    assert!(c.supports_vision);
    assert_eq!(c.summary_parts(), vec!["128k ctx".to_string(), "vision".to_string()]);
    assert_eq!(format_capability_summary(&c), "128k ctx · vision");
    let plain = infer_model_capabilities("mystery");
    assert_eq!(plain.context_window_tokens, None);
    assert!(!plain.supports_vision);
    assert_eq!(format_capability_summary(&plain), "");
}

#[test]
fn entries_list_ollama_first_and_mark_the_active_model() {
    let entries = build_picker_entries(&lists());
    let names: Vec<&str> = entries.iter().map(|e| e.model_name.as_str()).collect();
    assert_eq!(names, vec!["llama3.1:8b", "llava:7b", "gpt-4o"]);
    assert_eq!(entries[2].provider_label, "OpenAI");
    assert!(entries[1].capabilities.supports_vision);
    let groups = group_entries_by_provider(&entries);
    assert_eq!(groups.len(), 2);
    assert_eq!(groups[0].0, ModelProviderKind::Ollama);
    assert_eq!(groups[0].1.len(), 2);
    let marked = mark_active_entry(&entries, "openai", "gpt-4o");
    assert_eq!(active_entry_index(&marked), Some(2));
    assert_eq!(active_entry_index(&entries), None);
    let mut st = ModelPickerState::new();
    open_picker_at_active(&mut st, &marked);
    assert!(st.is_open());
    assert_eq!(st.selected(), 2);
}

#[test]
fn listed_providers_skip_unknown_ids() {
    let listed = vec![
        ("openai".to_string(), vec!["gpt-4o".to_string()]),
        ("acme".to_string(), vec!["x".to_string()]),
        ("ollama".to_string(), vec!["qwen2.5".to_string()]),
    ];
    let e = entries_from_listed_providers(&listed, Some("ollama"), Some("qwen2.5"));
    assert_eq!(e.len(), 2);
    assert_eq!(e[0].model_name, "qwen2.5");
    assert!(e[0].is_active);
    assert!(!e[1].is_active);
    let none = entries_from_listed_providers(&listed, None, Some("qwen2.5"));
    assert!(none.iter().all(|x| !x.is_active));
}

#[test]
fn picker_keys_wrap_and_select() {
    let mut st = ModelPickerState::new();
    assert_eq!(st.handle_key(ModelPickerKey::Down, 3), ModelPickerAction::Noop);
    st.open_with_count(3);
    assert_eq!(st.handle_key(ModelPickerKey::Up, 3), ModelPickerAction::HighlightChanged { index: 2 });
    assert_eq!(st.handle_key(ModelPickerKey::Down, 3), ModelPickerAction::HighlightChanged { index: 0 });
    assert_eq!(st.handle_key(ModelPickerKey::Down, 0), ModelPickerAction::Noop);
    assert_eq!(st.handle_key(ModelPickerKey::Enter, 3), ModelPickerAction::Select { index: 0 });
    assert!(!st.is_open());
    st.open_with_count(3);
    assert_eq!(st.handle_key(ModelPickerKey::Escape, 3), ModelPickerAction::Dismiss);
    st.open_with_count(0);
    assert_eq!(st.handle_key(ModelPickerKey::Enter, 0), ModelPickerAction::Dismiss);
}

#[test]
fn refresh_clamps_the_highlight() {
    let mut st = ModelPickerState::new();
    st.open_with_count(3);
    st.handle_key(ModelPickerKey::Up, 3);
    assert_eq!(st.selected(), 2);
    let fewer = vec![(ModelProviderKind::Ollama, vec!["a".to_string()])];
    let e = refresh_picker_entries(&mut st, &fewer, "ollama", "a");
    assert_eq!(e.len(), 1);
    assert!(e[0].is_active);
    assert_eq!(st.selected(), 0);
    assert_eq!(picker_row_tone(true, true), PickerRowTone::Highlighted);
    assert_eq!(picker_row_tone(false, true), PickerRowTone::Active);
    assert_eq!(picker_row_tone(false, false), PickerRowTone::Default);
}
