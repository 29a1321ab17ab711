//! Overflow (`⋯`) menus of the window, thread rows and message bubbles.

use crate::icons::IconName;
use vstd::prelude::*;

verus! {

/// Which overflow (`⋯`) menu is open.
#[derive(Clone, Copy, Debug, PartialEq, Eq, Structural)]
pub enum OverflowMenu {
    /// Window / titlebar overflow.
    Window,
    /// Thread list row overflow.
    Thread,
    /// Message bubble overflow.
    Message,
}

/// One row in an overflow menu.
#[derive(Clone, Copy, Debug, PartialEq, Eq)]
pub struct OverflowItem {
    /// Stable action id (`"settings"`, `"copy"`, …).
    pub id: &'static str,
    /// User-visible label.
    pub label: &'static str,
    /// Leading icon.
    pub icon: IconName,
    /// Shortcut chord, when the action has one.
    pub keys: Option<&'static str>,
}

/// Mathematical view of an [`OverflowItem`].
pub struct OverflowItemView {
    /// Action id.
    pub id: Seq<char>,
    /// Label.
    pub label: Seq<char>,
    /// Icon.
    pub icon: IconName,
    /// Shortcut chord.
    pub keys: Option<Seq<char>>,
}

impl View for OverflowItem {
    type V = OverflowItemView;

    open spec fn view(&self) -> OverflowItemView {
        OverflowItemView {
            id: self.id@,
            label: self.label@,
            icon: self.icon,
            keys: match self.keys {
                Some(k) => Some(k@),
                None => None,
            },
        }
    }
}

/// Views of overflow rows.
pub open spec fn rows_view(s: Seq<OverflowItem>) -> Seq<OverflowItemView> {
    s.map_values(|i: OverflowItem| i@)
}

/// An overflow row.
pub open spec fn overflow_row(id: Seq<char>, label: Seq<char>, icon: IconName, keys: Option<Seq<char>>) -> OverflowItemView {
    OverflowItemView { id, label, icon, keys }
}

/// Rows of the window overflow menu.
pub open spec fn window_rows() -> Seq<OverflowItemView> {
    seq![
        overflow_row("settings"@, "Settings"@, IconName::Settings, Some("Ctrl+,"@)),
        overflow_row("shortcuts"@, "Keyboard shortcuts"@, IconName::Keyboard, Some("Ctrl+/"@)),
        overflow_row("zoom-in"@, "Zoom in"@, IconName::ZoomIn, Some("Ctrl+="@)),
        overflow_row("zoom-out"@, "Zoom out"@, IconName::ZoomOut, Some("Ctrl+-"@)),
        overflow_row("zoom-reset"@, "Reset zoom"@, IconName::Maximize, Some("Ctrl+0"@)),
        overflow_row("toggle-sidebar"@, "Toggle sidebar"@, IconName::PanelLeft, Some("Ctrl+B"@)),
    ]
}

/// Rows of the thread overflow menu.
pub open spec fn thread_rows() -> Seq<OverflowItemView> {
    seq![
        overflow_row("rename"@, "Rename"@, IconName::Pencil, None),
        overflow_row("export"@, "Export"@, IconName::Copy, None),
        overflow_row("delete"@, "Delete"@, IconName::X, None),
    ]
}

/// Window overflow: settings, shortcuts, zoom, sidebar.
pub fn window_overflow_items() -> (r: &'static [OverflowItem])
    ensures
        rows_view(r@) == window_rows(),
{
    let v: &'static [OverflowItem] = &[
        OverflowItem { id: "settings", label: "Settings", icon: IconName::Settings, keys: Some("Ctrl+,") },
        OverflowItem { id: "shortcuts", label: "Keyboard shortcuts", icon: IconName::Keyboard, keys: Some("Ctrl+/") },
        OverflowItem { id: "zoom-in", label: "Zoom in", icon: IconName::ZoomIn, keys: Some("Ctrl+=") },
        OverflowItem { id: "zoom-out", label: "Zoom out", icon: IconName::ZoomOut, keys: Some("Ctrl+-") },
        OverflowItem { id: "zoom-reset", label: "Reset zoom", icon: IconName::Maximize, keys: Some("Ctrl+0") },
        OverflowItem { id: "toggle-sidebar", label: "Toggle sidebar", icon: IconName::PanelLeft, keys: Some("Ctrl+B") },
    ];
    assert(rows_view(v@) =~= window_rows());
    v
}

/// Thread overflow: rename plus placeholders for later actions.
pub fn thread_overflow_items() -> (r: &'static [OverflowItem])
    ensures
        rows_view(r@) == thread_rows(),
{
    let v: &'static [OverflowItem] = &[
        OverflowItem { id: "rename", label: "Rename", icon: IconName::Pencil, keys: None },
        OverflowItem { id: "export", label: "Export", icon: IconName::Copy, keys: None },
        OverflowItem { id: "delete", label: "Delete", icon: IconName::X, keys: None },
    ];
    assert(rows_view(v@) =~= thread_rows());
    v
}

/// `row` when `cond` holds, otherwise nothing.
pub open spec fn row_if(cond: bool, row: OverflowItemView) -> Seq<OverflowItemView> {
    if cond {
        seq![row]
    } else {
        Seq::empty()
    }
}

/// Rows of the message overflow menu for the given flags.
pub open spec fn message_rows(
    is_assistant: bool,
    is_failed: bool,
    is_last_assistant: bool,
    memories_enabled: bool,
    artifacts_enabled: bool,
    can_retry: bool,
    can_regenerate: bool,
    can_edit: bool,
) -> Seq<OverflowItemView> {
    seq![overflow_row("copy"@, "Copy"@, IconName::Copy, None)]
        + row_if(is_assistant && memories_enabled, overflow_row("save-memory"@, "Save memory"@, IconName::Sparkles, None))
        + row_if(is_assistant && artifacts_enabled, overflow_row("save-artifact"@, "Save artifact"@, IconName::Box, None))
        + row_if(is_failed && can_retry, overflow_row("retry"@, "Retry"@, IconName::Refresh, None))
        + row_if(is_assistant && is_last_assistant && can_regenerate, overflow_row("regenerate"@, "Regenerate"@, IconName::RotateCcw, None))
        + row_if(can_edit, overflow_row("edit"@, "Edit"@, IconName::Pencil, None))
}

fn push_row_if(items: &mut Vec<OverflowItem>, cond: bool, row: OverflowItem)
    ensures
        rows_view(final(items)@) == rows_view(old(items)@) + row_if(cond, row@),
{
    let ghost prev = items@;
    if cond {
        items.push(row);
        assert(rows_view(items@) =~= rows_view(prev) + row_if(cond, row@));
    } else {
        assert(rows_view(items@) =~= rows_view(prev) + row_if(cond, row@));
    }
}

/// Message overflow using default flags from the message role/status.
///
/// Always includes copy. Assistant messages include save-memory and save-artifact.
/// Failed messages include retry. The last assistant message includes regenerate.
/// User messages include edit.
pub fn message_overflow_items(is_assistant: bool, is_failed: bool, is_last_assistant: bool) -> (r: Vec<OverflowItem>)
    ensures
        rows_view(r@) == message_rows(
            is_assistant,
            is_failed,
            is_last_assistant,
            is_assistant,
            is_assistant,
            is_failed,
            is_last_assistant,
            !is_assistant,
        ),
{
    message_overflow_items_with_flags(
        is_assistant,
        is_failed,
        is_last_assistant,
        is_assistant,
        is_assistant,
        is_failed,
        is_last_assistant,
        !is_assistant,
    )
}

/// Message overflow with explicit capability flags.
pub fn message_overflow_items_with_flags(
    is_assistant: bool,
    is_failed: bool,
    is_last_assistant: bool,
    memories_enabled: bool,
    artifacts_enabled: bool,
    can_retry: bool,
    can_regenerate: bool,
    can_edit: bool,
) -> (r: Vec<OverflowItem>)
    ensures
        rows_view(r@) == message_rows(
            is_assistant,
            is_failed,
            is_last_assistant,
            memories_enabled,
            artifacts_enabled,
            can_retry,
            can_regenerate,
            can_edit,
        ),
{
    let mut items = vec![OverflowItem { id: "copy", label: "Copy", icon: IconName::Copy, keys: None }];
    assert(rows_view(items@) =~= seq![overflow_row("copy"@, "Copy"@, IconName::Copy, None)]);
    push_row_if(&mut items, is_assistant && memories_enabled, OverflowItem { id: "save-memory", label: "Save memory", icon: IconName::Sparkles, keys: None });
    push_row_if(&mut items, is_assistant && artifacts_enabled, OverflowItem { id: "save-artifact", label: "Save artifact", icon: IconName::Box, keys: None });
    push_row_if(&mut items, is_failed && can_retry, OverflowItem { id: "retry", label: "Retry", icon: IconName::Refresh, keys: None });
    push_row_if(&mut items, is_assistant && is_last_assistant && can_regenerate, OverflowItem { id: "regenerate", label: "Regenerate", icon: IconName::RotateCcw, keys: None });
    push_row_if(&mut items, can_edit, OverflowItem { id: "edit", label: "Edit", icon: IconName::Pencil, keys: None });
    items
}

} // verus!
