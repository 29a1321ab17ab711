//! Routing of key presses in the composer: which completion list the up and
//! down arrows move through, when the text editor gets the key, and what
//! Enter, Tab, Escape, the clipboard chords and Space do.
//!
//! The routing is a small state machine. [`composer_key_route`] decides the
//! first step; where that step is an attempt whose outcome only the shell
//! knows (the editor handling the key, accepting a completion, dismissing a
//! picker), the shell reports the outcome to [`composer_key_after_editor`] or
//! [`composer_key_after_attempt`] for the next step.

use crate::composer_pickers::{move_picker_selection, picker_move_ok, picker_moved};
use crate::text::str_eq;
use vstd::prelude::*;

verus! {

/// What the shell does with a key press in the composer.
#[derive(Debug, Clone, Copy, PartialEq, Eq, Structural)]
pub enum ComposerKeyAction {
    /// Nothing happens.
    Ignore,
    /// The key was fully handled (the highlight moved, or an attempt succeeded).
    Handled,
    /// Offer the key to the text editor first.
    DelegateEditor,
    /// Insert a line break.
    InsertNewline,
    /// Try to accept the highlighted completion or picker item.
    AcceptCompletion,
    /// Send the current message.
    Send,
    /// Hand the key to keyboard focus navigation.
    KeyboardNav,
    /// Try to dismiss the `@`/`/` picker at the cursor.
    DismissPicker,
    /// Cancel the running generation.
    CancelGeneration,
    /// Paste from the clipboard (an image first, else text).
    Paste,
    /// Copy the selection.
    Copy,
    /// Copy the selection, then delete it.
    Cut,
    /// Insert a space.
    InsertSpace,
    /// Insert the key's typed characters, if it has any.
    InsertTyped,
}

/// Length of the list the arrows move through: the active picker, then file,
/// memory and artifact completions, whichever is first non-empty.
pub open spec fn active_list_len(picker_len: usize, files_len: usize, mem_len: usize, art_len: usize) -> usize {
    if picker_len > 0 {
        picker_len
    } else if files_len > 0 {
        files_len
    } else if mem_len > 0 {
        mem_len
    } else {
        art_len
    }
}

/// What a key that the editor did not take does.
pub open spec fn key_after_editor_spec(key: Seq<char>, ctrl: bool, shift: bool) -> ComposerKeyAction {
    if key == "enter"@ {
        if shift {
            ComposerKeyAction::InsertNewline
        } else {
            ComposerKeyAction::AcceptCompletion
        }
    } else if key == "tab"@ {
        ComposerKeyAction::AcceptCompletion
    } else if key == "escape"@ {
        ComposerKeyAction::DismissPicker
    } else if key == "v"@ && ctrl {
        ComposerKeyAction::Paste
    } else if key == "c"@ && ctrl {
        ComposerKeyAction::Copy
    } else if key == "x"@ && ctrl {
        ComposerKeyAction::Cut
    } else if key == "space"@ && !ctrl {
        ComposerKeyAction::InsertSpace
    } else if ctrl {
        ComposerKeyAction::Ignore
    } else {
        ComposerKeyAction::InsertTyped
    }
}

/// The arithmetic of moving the highlight cannot overflow for this press.
pub open spec fn key_route_ok(key: Seq<char>, picker_len: usize, files_len: usize, mem_len: usize, art_len: usize, completion_index: usize) -> bool {
    &&& (key == "up"@ && picker_len > 0 ==> picker_move_ok(completion_index, picker_len, -1i32))
    &&& (key == "down"@ && picker_len > 0 ==> picker_move_ok(completion_index, picker_len, 1i32))
    &&& (key == "down"@ && picker_len == 0 && active_list_len(picker_len, files_len, mem_len, art_len) > 0
        ==> completion_index < usize::MAX)
}

/// The first step for a key press, with the completion highlight after it:
/// Alt or the platform key leave the composer alone; up and down move the
/// highlight of a visible list (wrapping in a picker, clamped in completion
/// lists); up and down are kept from the editor while a list or a command
/// completion shows; every other key goes to the editor first.
pub open spec fn composer_key_route_spec(
    key: Seq<char>,
    ctrl: bool,
    shift: bool,
    alt_or_platform: bool,
    picker_len: usize,
    files_len: usize,
    mem_len: usize,
    art_len: usize,
    has_command: bool,
    completion_index: usize,
) -> (usize, ComposerKeyAction) {
    let list_len = active_list_len(picker_len, files_len, mem_len, art_len);
    if alt_or_platform {
        (completion_index, ComposerKeyAction::Ignore)
    } else if key == "up"@ && list_len > 0 {
        (
            if picker_len > 0 {
                picker_moved(completion_index, list_len, -1i32)
            } else if completion_index > 0 {
                (completion_index - 1) as usize
            } else {
                0
            },
            ComposerKeyAction::Handled,
        )
    } else if key == "down"@ && list_len > 0 {
        (
            if picker_len > 0 {
                picker_moved(completion_index, list_len, 1i32)
            } else if completion_index + 1 < list_len - 1 {
                (completion_index + 1) as usize
            } else {
                (list_len - 1) as usize
            },
            ComposerKeyAction::Handled,
        )
    } else if (list_len > 0 || has_command) && (key == "up"@ || key == "down"@) {
        (completion_index, key_after_editor_spec(key, ctrl, shift))
    } else {
        (completion_index, ComposerKeyAction::DelegateEditor)
    }
}

/// What follows an attempt: a successful one ends the press; a failed
/// accept on Enter sends, on Tab moves keyboard focus; a failed picker
/// dismissal on Escape cancels the generation.
pub open spec fn key_after_attempt_spec(key: Seq<char>, succeeded: bool) -> ComposerKeyAction {
    if succeeded {
        ComposerKeyAction::Handled
    } else if key == "enter"@ {
        ComposerKeyAction::Send
    } else if key == "tab"@ {
        ComposerKeyAction::KeyboardNav
    } else if key == "escape"@ {
        ComposerKeyAction::CancelGeneration
    } else {
        ComposerKeyAction::Ignore
    }
}

/// Decides a key the editor did not take.
pub fn composer_key_after_editor(key: &str, ctrl: bool, shift: bool) -> (r: ComposerKeyAction)
    ensures
        r == key_after_editor_spec(key@, ctrl, shift),
{
    if str_eq(key, "enter") {
        if shift {
            ComposerKeyAction::InsertNewline
        } else {
            ComposerKeyAction::AcceptCompletion
        }
    } else if str_eq(key, "tab") {
        ComposerKeyAction::AcceptCompletion
    } else if str_eq(key, "escape") {
        ComposerKeyAction::DismissPicker
    } else if str_eq(key, "v") && ctrl {
        ComposerKeyAction::Paste
    } else if str_eq(key, "c") && ctrl {
        ComposerKeyAction::Copy
    } else if str_eq(key, "x") && ctrl {
        ComposerKeyAction::Cut
    } else if str_eq(key, "space") && !ctrl {
        ComposerKeyAction::InsertSpace
    } else if ctrl {
        ComposerKeyAction::Ignore
    } else {
        ComposerKeyAction::InsertTyped
    }
}

/// Decides what follows an attempted accept or dismissal of `key`.
pub fn composer_key_after_attempt(key: &str, succeeded: bool) -> (r: ComposerKeyAction)
    ensures
        r == key_after_attempt_spec(key@, succeeded),
{
    if succeeded {
        ComposerKeyAction::Handled
    } else if str_eq(key, "enter") {
        ComposerKeyAction::Send
    } else if str_eq(key, "tab") {
        ComposerKeyAction::KeyboardNav
    } else if str_eq(key, "escape") {
        ComposerKeyAction::CancelGeneration
    } else {
        ComposerKeyAction::Ignore
    }
}

/// Routes a composer key press: the completion highlight after it, and the
/// first thing the shell does.
pub fn composer_key_route(
    key: &str,
    ctrl: bool,
    shift: bool,
    alt_or_platform: bool,
    picker_len: usize,
    files_len: usize,
    mem_len: usize,
    art_len: usize,
    has_command: bool,
    completion_index: usize,
) -> (r: (usize, ComposerKeyAction))
    requires
        key_route_ok(key@, picker_len, files_len, mem_len, art_len, completion_index),
    ensures
        r == composer_key_route_spec(
            key@,
            ctrl,
            shift,
            alt_or_platform,
            picker_len,
            files_len,
            mem_len,
            art_len,
            has_command,
            completion_index,
        ),
{
    if alt_or_platform {
        return (completion_index, ComposerKeyAction::Ignore);
    }
    let list_len = if picker_len > 0 {
        picker_len
    } else if files_len > 0 {
        files_len
    } else if mem_len > 0 {
        mem_len
    } else {
        art_len
    };
    let up = str_eq(key, "up");
    let down = str_eq(key, "down");
    if up && list_len > 0 {
        let next = if picker_len > 0 {
            move_picker_selection(completion_index, list_len, -1)
        } else if completion_index > 0 {
            completion_index - 1
        } else {
            0
        };
        return (next, ComposerKeyAction::Handled);
    }
    if down && list_len > 0 {
        let next = if picker_len > 0 {
            move_picker_selection(completion_index, list_len, 1)
        } else if completion_index + 1 < list_len - 1 {
            completion_index + 1
        } else {
            list_len - 1
        };
        return (next, ComposerKeyAction::Handled);
    }
    if (list_len > 0 || has_command) && (up || down) {
        return (completion_index, composer_key_after_editor(key, ctrl, shift));
    }
    (completion_index, ComposerKeyAction::DelegateEditor)
}

} // verus!
