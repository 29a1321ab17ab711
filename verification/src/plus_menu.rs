//! Composer + attach menu rows.
//!
//! Same insert/label strings as the `@` picker catalog, with icons.

use crate::icons::IconName;
use vstd::prelude::*;

verus! {

/// One row in the composer + menu.
#[derive(Clone, Copy, Debug, PartialEq, Eq)]
pub struct PlusMenuItem {
    /// Text inserted into the composer (e.g. `"@file:"`).
    pub insert: &'static str,
    /// User-visible label.
    pub label: &'static str,
    /// Leading icon.
    pub icon: IconName,
}

/// Mathematical view of a [`PlusMenuItem`].
pub struct PlusMenuView {
    /// Inserted text.
    pub insert: Seq<char>,
    /// Label.
    pub label: Seq<char>,
    /// Icon.
    pub icon: IconName,
}

impl View for PlusMenuItem {
    type V = PlusMenuView;

    open spec fn view(&self) -> PlusMenuView {
        PlusMenuView { insert: self.insert@, label: self.label@, icon: self.icon }
    }
}

/// A + menu row.
pub open spec fn plus_row(insert: Seq<char>, label: Seq<char>, icon: IconName) -> PlusMenuView {
    PlusMenuView { insert, label, icon }
}

/// Rows of the + menu: the fixed sources, then artifacts and memories when enabled.
pub open spec fn plus_rows(memories_enabled: bool, artifacts_enabled: bool) -> Seq<PlusMenuView> {
    seq![
        plus_row("@file:"@, "Attach file"@, IconName::File),
        plus_row("@folder:"@, "Attach folder"@, IconName::Folder),
        plus_row("@clipboard"@, "Attach clipboard"@, IconName::Clipboard),
        plus_row("@screenshot"@, "Capture screenshot"@, IconName::Camera),
        plus_row("@screenshot:window"@, "Capture window"@, IconName::Maximize),
    ] + (if artifacts_enabled {
        seq![plus_row("@artifact:"@, "Attach artifact"@, IconName::Box)]
    } else {
        Seq::empty()
    }) + (if memories_enabled {
        seq![plus_row("@memory:"@, "Attach memory"@, IconName::Sparkles)]
    } else {
        Seq::empty()
    })
}

/// Views of + menu rows.
pub open spec fn plus_view(s: Seq<PlusMenuItem>) -> Seq<PlusMenuView> {
    s.map_values(|i: PlusMenuItem| i@)
}

/// Composer + menu: file, folder, clipboard, screenshots, and optional memory/artifact.
pub fn plus_menu_items(memories_enabled: bool, artifacts_enabled: bool) -> (r: Vec<PlusMenuItem>)
    ensures
        plus_view(r@) == plus_rows(memories_enabled, artifacts_enabled),
{
    let mut items = vec![
        PlusMenuItem { insert: "@file:", label: "Attach file", icon: IconName::File },
        PlusMenuItem { insert: "@folder:", label: "Attach folder", icon: IconName::Folder },
        PlusMenuItem { insert: "@clipboard", label: "Attach clipboard", icon: IconName::Clipboard },
        PlusMenuItem { insert: "@screenshot", label: "Capture screenshot", icon: IconName::Camera },
        PlusMenuItem {
            insert: "@screenshot:window",
            label: "Capture window",
            icon: IconName::Maximize,
        },
    ];
    if artifacts_enabled {
        items.push(PlusMenuItem { insert: "@artifact:", label: "Attach artifact", icon: IconName::Box });
    }
    if memories_enabled {
        items.push(PlusMenuItem { insert: "@memory:", label: "Attach memory", icon: IconName::Sparkles });
    }
    assert(plus_view(items@) =~= plus_rows(memories_enabled, artifacts_enabled));
    items
}

} // verus!
