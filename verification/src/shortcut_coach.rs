//! First-run shortcut coach steps.

use vstd::prelude::*;

verus! {

/// One card in the first-run coach.
#[derive(Clone, Copy, Debug, PartialEq, Eq)]
pub struct CoachStep {
    /// Stable step id.
    pub id: &'static str,
    /// Short title.
    pub title: &'static str,
    /// Body copy with the key chord.
    pub body: &'static str,
}

/// The char view of a coach step: `(id, title, body)`.
pub open spec fn coach_step_view(s: CoachStep) -> (Seq<char>, Seq<char>, Seq<char>) {
    (s.id@, s.title@, s.body@)
}

/// At most four first-run steps: send, new chat, palette, sidebar.
pub fn first_run_steps() -> (r: &'static [CoachStep])
    ensures
        r@.map_values(|s: CoachStep| coach_step_view(s)) == seq![
            (
                "send"@,
                "Send a message"@,
                "Press Enter to send. Shift+Enter inserts a new line."@,
            ),
            ("new-chat"@, "Start a new chat"@, "Press Ctrl+N to open a new thread."@),
            ("palette"@, "Jump with the palette"@, "Press Ctrl+P to open a thread or run a command."@),
            (
                "sidebar"@,
                "Show the sidebar"@,
                "Use the menu button or Ctrl+B to show or hide the thread list."@,
            ),
        ],
{
    let v: &'static [CoachStep] = &[
        CoachStep {
            id: "send",
            title: "Send a message",
            body: "Press Enter to send. Shift+Enter inserts a new line.",
        },
        CoachStep {
            id: "new-chat",
            title: "Start a new chat",
            body: "Press Ctrl+N to open a new thread.",
        },
        CoachStep {
            id: "palette",
            title: "Jump with the palette",
            body: "Press Ctrl+P to open a thread or run a command.",
        },
        CoachStep {
            id: "sidebar",
            title: "Show the sidebar",
            body: "Use the menu button or Ctrl+B to show or hide the thread list.",
        },
    ];
    assert(v@.map_values(|s: CoachStep| coach_step_view(s)) =~= seq![
        (
            "send"@,
            "Send a message"@,
            "Press Enter to send. Shift+Enter inserts a new line."@,
        ),
        ("new-chat"@, "Start a new chat"@, "Press Ctrl+N to open a new thread."@),
        ("palette"@, "Jump with the palette"@, "Press Ctrl+P to open a thread or run a command."@),
        (
            "sidebar"@,
            "Show the sidebar"@,
            "Use the menu button or Ctrl+B to show or hide the thread list."@,
        ),
    ]);
    v
}

/// Whether the first-run coach should appear.
///
/// Shown only when the user has not dismissed it and shortcut hints are enabled.
pub fn should_show_coach(coach_seen: bool, show_hints: bool) -> (r: bool)
    ensures
        r == (!coach_seen && show_hints),
{
    !coach_seen && show_hints
}

} // verus!
