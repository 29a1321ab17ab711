use ronin::folder_attach::{
    folder_attach_from_listing, folder_attach_label, folder_browse_filter_placeholder,
    folder_reveal_more_label, folder_truncated_hint, FolderAttachState, FolderEntry, FolderListing,
};

fn listing(paths: &[&str], truncated: bool) -> FolderListing {
    FolderListing {
        name: "proj".to_string(),
        entries: paths
            .iter()
            .map(|p| FolderEntry { relative_path: p.to_string() })
            .collect(),
        truncated,
        can_deepen: true,
    }
}

#[test]
fn all_files_start_selected() {
    let st = FolderAttachState::from_listing(listing(&["src/main.rs", "README.md"], false));
    assert_eq!(st.name(), "proj");
    assert_eq!(st.selected_count(), 2);
    assert!(st.is_selected("README.md"));
    assert!(!st.is_selected("other"));
    assert!(!st.can_reveal_more());
}

#[test]
fn toggle_ignores_unlisted_and_flips_listed() {
    let mut st = folder_attach_from_listing(listing(&["a.rs", "b.rs"], true));
    assert!(st.can_reveal_more());
    st.toggle_file("zzz");
    assert_eq!(st.selected_count(), 2);
    st.toggle_file("a.rs");
    assert!(!st.is_selected("a.rs"));
    assert_eq!(st.selected_count(), 1);
    st.toggle_file("a.rs");
    assert!(st.is_selected("a.rs"));
    assert_eq!(st.selected_count(), 2);
}

#[test]
fn browse_filter_narrows_visible_entries_case_insensitively() {
    let mut st = FolderAttachState::from_listing(listing(&["src/Main.rs", "docs/guide.md", "src/lib.rs"], false));
    st.set_browse_filter("  SRC/ ");
    assert_eq!(st.browse_filter(), "  SRC/ ");
    let vis: Vec<&str> = st.visible_entries().iter().map(|e| e.relative_path.as_str()).collect();
    assert_eq!(vis, vec!["src/Main.rs", "src/lib.rs"]);
    st.clear_selection();
    assert_eq!(st.selected_count(), 0);
    st.select_all_visible();
    assert_eq!(st.selected_count(), 2);
    assert!(!st.is_selected("docs/guide.md"));
    st.clear_browse_filter();
    assert_eq!(st.visible_entries().len(), 3);
    st.select_all();
    assert_eq!(st.selected_count(), 3);
}

#[test]
fn replace_listing_keeps_only_surviving_selections() {
    let mut st = FolderAttachState::from_listing(listing(&["a", "b"], true));
    st.toggle_file("b");
    st.replace_listing(listing(&["a", "b", "c"], false));
    assert!(st.is_selected("a"));
    assert!(!st.is_selected("b"));
    assert!(!st.is_selected("c"));
    assert_eq!(st.selected_count(), 1);
    assert_eq!(st.listing().entries.len(), 3);
    st.replace_listing(listing(&["c"], false));
    assert_eq!(st.selected_count(), 0);
}

#[test]
fn folder_labels() {
    assert_eq!(folder_attach_label(), "Attach folder");
    assert_eq!(folder_reveal_more_label(), "Reveal more");
    assert_eq!(folder_browse_filter_placeholder(), "Filter files…");
    assert!(folder_truncated_hint().starts_with("Listing truncated"));
}

#[test]
fn selection_is_kept_in_byte_order() {
    let mut s = FolderAttachState::from_listing(listing(&["src/z.rs", "README.md", "src/a.rs", "Cargo.toml"], false));
    assert_eq!(
        s.selected_paths(),
        vec!["Cargo.toml", "README.md", "src/a.rs", "src/z.rs"]
    );
    s.toggle_file("README.md");
    s.toggle_file("src/a.rs");
    assert_eq!(s.selected_paths(), vec!["Cargo.toml", "src/z.rs"]);
    s.toggle_file("src/a.rs");
    assert_eq!(s.selected_paths(), vec!["Cargo.toml", "src/a.rs", "src/z.rs"]);
}
