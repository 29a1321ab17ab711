use ronin::composer_keys::{
    composer_key_after_attempt, composer_key_after_editor, composer_key_route, ComposerKeyAction,
};

#[test]
fn alt_and_platform_chords_are_ignored() {
    assert_eq!(
        composer_key_route("a", false, false, true, 0, 0, 0, 0, false, 3),
        (3, ComposerKeyAction::Ignore)
    );
}

#[test]
fn arrows_wrap_in_a_picker_and_clamp_in_completion_lists() {
    assert_eq!(
        composer_key_route("up", false, false, false, 4, 0, 0, 0, false, 0),
        (3, ComposerKeyAction::Handled)
    );
    assert_eq!(
        composer_key_route("down", false, false, false, 4, 0, 0, 0, false, 3),
        (0, ComposerKeyAction::Handled)
    );
    assert_eq!(
        composer_key_route("down", false, false, false, 0, 2, 5, 0, false, 1),
        (1, ComposerKeyAction::Handled)
    );
    assert_eq!(
        composer_key_route("up", false, false, false, 0, 0, 0, 3, false, 0),
        (0, ComposerKeyAction::Handled)
    );
    assert_eq!(
        composer_key_route("down", false, false, false, 0, 0, 3, 0, false, 0),
        (1, ComposerKeyAction::Handled)
    );
}

#[test]
fn arrows_skip_the_editor_while_a_command_completion_shows() {
    assert_eq!(
        composer_key_route("up", false, false, false, 0, 0, 0, 0, true, 2),
        (2, ComposerKeyAction::InsertTyped)
    );
    assert_eq!(
        composer_key_route("up", false, false, false, 0, 0, 0, 0, false, 2),
        (2, ComposerKeyAction::DelegateEditor)
    );
    assert_eq!(
        composer_key_route("enter", false, false, false, 3, 0, 0, 0, true, 0),
        (0, ComposerKeyAction::DelegateEditor)
    );
}

#[test]
fn keys_the_editor_declines() {
    assert_eq!(composer_key_after_editor("enter", false, true), ComposerKeyAction::InsertNewline);
    assert_eq!(composer_key_after_editor("enter", false, false), ComposerKeyAction::AcceptCompletion);
    assert_eq!(composer_key_after_editor("tab", false, true), ComposerKeyAction::AcceptCompletion);
    assert_eq!(composer_key_after_editor("escape", false, false), ComposerKeyAction::DismissPicker);
    assert_eq!(composer_key_after_editor("v", true, false), ComposerKeyAction::Paste);
    assert_eq!(composer_key_after_editor("c", true, false), ComposerKeyAction::Copy);
    assert_eq!(composer_key_after_editor("x", true, false), ComposerKeyAction::Cut);
    assert_eq!(composer_key_after_editor("space", false, false), ComposerKeyAction::InsertSpace);
    assert_eq!(composer_key_after_editor("space", true, false), ComposerKeyAction::Ignore);
    assert_eq!(composer_key_after_editor("v", false, false), ComposerKeyAction::InsertTyped);
}

#[test]
fn failed_attempts_fall_back() {
    assert_eq!(composer_key_after_attempt("enter", true), ComposerKeyAction::Handled);
    assert_eq!(composer_key_after_attempt("enter", false), ComposerKeyAction::Send);
    assert_eq!(composer_key_after_attempt("tab", false), ComposerKeyAction::KeyboardNav);
    assert_eq!(composer_key_after_attempt("escape", false), ComposerKeyAction::CancelGeneration);
}
