use ronin::message_branches::{branch_nav_label, edit_draft_commit, MessageEditState};
use ronin::provider_settings::{
    format_import_config_error, no_hidden_instructions_notice, test_connection_button_label,
};
use ronin::settings_view::{
    auto_title_toggle_label, scale_label, section_label, theme_label, visible_sections,
    SettingsSection, SettingsState,
};
use ronin::shortcut_coach::{first_run_steps, should_show_coach};
use ronin::thread_titles::{
    format_sidebar_thread_title, title_generation_status_label, ThreadRenameState,
    TITLE_GENERATING_HINT,
};

#[test]
fn settings_sections_filter_by_label() {
    assert_eq!(visible_sections("").len(), 6);
    assert_eq!(visible_sections("   "), visible_sections(""));
    assert_eq!(visible_sections("MOD"), vec![SettingsSection::Models]);
    assert_eq!(
        visible_sections("a"),
        vec![
            SettingsSection::General,
            SettingsSection::Appearance,
            SettingsSection::Privacy,
            SettingsSection::Keyboard,
            SettingsSection::Advanced,
        ]
    );
    assert!(visible_sections("zzz").is_empty());
    assert_eq!(section_label(SettingsSection::Privacy), "Privacy");
    assert_eq!(theme_label(), "Theme");
    assert_eq!(scale_label(), "Scale");
    assert_eq!(auto_title_toggle_label(), "Auto-generate thread titles");
}

#[test]
fn settings_state_opens_and_selects() {
    let mut s = SettingsState::new();
    assert!(!s.is_open());
    assert_eq!(s.section(), SettingsSection::General);
    s.toggle();
    assert!(s.is_open());
    s.set_section(SettingsSection::Keyboard);
    s.set_search("key");
    assert_eq!(s.section(), SettingsSection::Keyboard);
    assert_eq!(s.search(), "key");
    s.close();
    assert!(!s.is_open());
    s.open();
    assert!(s.is_open());
}

#[test]
fn thread_rename_commits_trimmed_titles() {
    let mut r = ThreadRenameState::new();
    assert!(r.commit().is_none());
    r.begin_rename("t1", "Old");
    r.update_draft("   ");
    assert!(r.commit().is_none());
    assert!(r.editing().is_some());
    r.update_draft("  New title ");
    let done = r.commit().expect("committed");
    assert_eq!(done.thread_id, "t1");
    assert_eq!(done.draft, "New title");
    assert!(r.editing().is_none());
    r.begin_rename("t2", "x");
    r.cancel();
    assert!(r.editing().is_none());
    assert_eq!(title_generation_status_label(true), Some(TITLE_GENERATING_HINT));
    assert_eq!(title_generation_status_label(false), None);
    assert_eq!(format_sidebar_thread_title("Chat", true), "● Chat");
    assert_eq!(format_sidebar_thread_title("Chat", false), "Chat");
}

#[test]
fn message_edit_and_branch_labels() {
    assert_eq!(branch_nav_label(0, 3), "1 / 3");
    assert_eq!(branch_nav_label(2, 0), "3 / 1");
    let mut st = MessageEditState::new();
    assert!(edit_draft_commit(&mut st).is_none());
    st.begin_edit("m1", "hello");
    st.update_draft("  changed ");
    let d = edit_draft_commit(&mut st).expect("commit");
    assert_eq!(d.message_id, "m1");
    assert_eq!(d.draft, "changed");
    assert!(st.editing().is_none());
    st.begin_edit("m2", "x");
    st.update_draft("");
    assert!(edit_draft_commit(&mut st).is_none());
    assert!(st.editing().is_some());
    st.cancel();
    assert!(st.editing().is_none());
}

#[test]
fn coach_and_provider_copy() {
    let steps = first_run_steps();
    assert_eq!(steps.len(), 4);
    assert_eq!(steps[0].id, "send");
    assert_eq!(steps[3].id, "sidebar");
    assert!(should_show_coach(false, true));
    assert!(!should_show_coach(true, true));
    assert!(!should_show_coach(false, false));
    assert_eq!(test_connection_button_label(), "Test Connection");
    assert!(no_hidden_instructions_notice().starts_with("No hidden system instructions"));
    assert_eq!(format_import_config_error("bad json"), "Import failed: bad json");
}
