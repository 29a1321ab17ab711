//! Ctrl+P quick switcher and Ctrl+Shift+P command palette.
//!
//! Catalogs, substring filter, open/close, selection clamp.

use crate::icons::IconName;
use crate::text::{chars_of, contains, contains_chars, is_ascii_text, lower_seq, owned, to_lowercase, trim, trim_str, unicode_lowercase};
use vstd::prelude::*;

verus! {

/// Which palette was opened.
#[derive(Clone, Copy, Debug, PartialEq, Eq, Structural)]
pub enum PaletteMode {
    /// Ctrl+P: threads plus a few commands.
    Quick,
    /// Ctrl+Shift+P: full command catalog.
    Commands,
}

/// Action dispatched when a palette row is confirmed.
#[derive(Clone, Copy, Debug, PartialEq, Eq, Structural)]
pub enum PaletteAction {
    /// Create a new thread.
    NewThread,
    /// Collapse or expand the sidebar.
    ToggleSidebar,
    /// Open settings.
    OpenSettings,
    /// Open global search.
    OpenSearch,
    /// Capture a screenshot (interactive / default).
    Screenshot,
    /// Capture the current window (falls back when unsupported).
    ScreenshotWindow,
    /// Focus the composer.
    FocusComposer,
    /// Toggle keyboard shortcut help.
    ToggleHelp,
    /// Increase UI zoom.
    ZoomIn,
    /// Decrease UI zoom.
    ZoomOut,
    /// Restore default zoom.
    ZoomReset,
    /// Open the memories panel.
    OpenMemories,
    /// Open the artifacts panel.
    OpenArtifacts,
    /// Select a thread. Index is on [`PaletteItem::thread_index`].
    SelectThread,
}

/// One palette row.
#[derive(Clone, Debug, PartialEq, Eq)]
pub struct PaletteItem {
    /// User-visible label (thread title or command name).
    pub label: String,
    /// Shortcut chord, when the command has one.
    pub keys: Option<&'static str>,
    /// Leading icon.
    pub icon: IconName,
    /// Action to run on confirm.
    pub action: PaletteAction,
    /// Thread list index when [`PaletteAction::SelectThread`].
    pub thread_index: Option<usize>,
}

/// Mathematical view of a [`PaletteItem`].
pub struct PaletteItemView {
    /// Label characters.
    pub label: Seq<char>,
    /// Shortcut chord characters.
    pub keys: Option<Seq<char>>,
    /// Leading icon.
    pub icon: IconName,
    /// Confirm action.
    pub action: PaletteAction,
    /// Thread index for thread rows.
    pub thread_index: Option<usize>,
}

/// Characters of an optional static string.
pub open spec fn opt_chars(o: Option<&'static str>) -> Option<Seq<char>> {
    match o {
        Some(s) => Some(s@),
        None => None,
    }
}

impl View for PaletteItem {
    type V = PaletteItemView;

    open spec fn view(&self) -> PaletteItemView {
        PaletteItemView {
            label: self.label@,
            keys: opt_chars(self.keys),
            icon: self.icon,
            action: self.action,
            thread_index: self.thread_index,
        }
    }
}

/// Views of a sequence of rows.
pub open spec fn items_view(s: Seq<PaletteItem>) -> Seq<PaletteItemView> {
    s.map_values(|i: PaletteItem| i@)
}

/// A command row of the catalog.
pub open spec fn command_row(
    label: Seq<char>,
    keys: Option<Seq<char>>,
    icon: IconName,
    action: PaletteAction,
) -> PaletteItemView {
    PaletteItemView { label, keys, icon, action, thread_index: None }
}

/// The static command catalog, in display order.
pub open spec fn catalog() -> Seq<PaletteItemView> {
    seq![
        command_row("New chat"@, Some("Ctrl+N"@), IconName::MessageSquarePlus, PaletteAction::NewThread),
        command_row("Search"@, Some("Ctrl+F"@), IconName::Search, PaletteAction::OpenSearch),
        command_row("Settings"@, Some("Ctrl+,"@), IconName::Settings, PaletteAction::OpenSettings),
        command_row("Toggle sidebar"@, Some("Ctrl+B"@), IconName::PanelLeft, PaletteAction::ToggleSidebar),
        command_row("Focus composer"@, Some("Ctrl+L"@), IconName::Pencil, PaletteAction::FocusComposer),
        command_row("Capture screenshot"@, None, IconName::Camera, PaletteAction::Screenshot),
        command_row("Capture window"@, None, IconName::Maximize, PaletteAction::ScreenshotWindow),
        command_row("Keyboard shortcuts"@, Some("Ctrl+/"@), IconName::Keyboard, PaletteAction::ToggleHelp),
        command_row("Zoom in"@, Some("Ctrl+="@), IconName::ZoomIn, PaletteAction::ZoomIn),
        command_row("Zoom out"@, Some("Ctrl+-"@), IconName::ZoomOut, PaletteAction::ZoomOut),
        command_row("Reset zoom"@, Some("Ctrl+0"@), IconName::Maximize, PaletteAction::ZoomReset),
        command_row("Open memories"@, None, IconName::Sparkles, PaletteAction::OpenMemories),
        command_row("Open artifacts"@, None, IconName::Box, PaletteAction::OpenArtifacts),
    ]
}

/// Whether the lower-cased label contains `q`.
pub open spec fn label_matches(item: PaletteItemView, q: Seq<char>) -> bool {
    contains(unicode_lowercase(item.label), q)
}

/// Rows among the first `k` of `items` whose lower-cased label contains `q`, in order.
pub open spec fn filtered(items: Seq<PaletteItemView>, q: Seq<char>, k: int) -> Seq<PaletteItemView>
    decreases k,
{
    if k <= 0 {
        Seq::empty()
    } else {
        let rest = filtered(items, q, k - 1);
        if label_matches(items[k - 1], q) {
            rest.push(items[k - 1])
        } else {
            rest
        }
    }
}

/// Result of [`filter_items`]: every row for a blank query, otherwise the rows
/// whose lower-cased label contains the lower-cased trimmed query.
pub open spec fn filter_result(items: Seq<PaletteItemView>, query: Seq<char>) -> Seq<PaletteItemView> {
    if trim(query).len() == 0 {
        items
    } else {
        filtered(items, unicode_lowercase(trim(query)), items.len() as int)
    }
}

/// [`filtered`] with ASCII lower-casing of the labels.
pub open spec fn filtered_ascii(items: Seq<PaletteItemView>, q: Seq<char>, k: int) -> Seq<PaletteItemView>
    decreases k,
{
    if k <= 0 {
        Seq::empty()
    } else {
        let rest = filtered_ascii(items, q, k - 1);
        if contains(lower_seq(items[k - 1].label), q) {
            rest.push(items[k - 1])
        } else {
            rest
        }
    }
}

/// The trimmed query and every label are ASCII.
pub open spec fn ascii_palette(items: Seq<PaletteItemView>, query: Seq<char>) -> bool {
    &&& is_ascii_text(trim(query))
    &&& forall|i: int| 0 <= i < items.len() ==> is_ascii_text(#[trigger] items[i].label)
}

/// [`filter_result`] on ASCII text, where lower-casing is ASCII's.
pub open spec fn filter_result_ascii(items: Seq<PaletteItemView>, query: Seq<char>) -> Seq<PaletteItemView> {
    if trim(query).len() == 0 {
        items
    } else {
        filtered_ascii(items, lower_seq(trim(query)), items.len() as int)
    }
}

/// Thread row for a `(index, title)` pair.
pub open spec fn thread_row(index: usize, title: Seq<char>) -> PaletteItemView {
    PaletteItemView {
        label: title,
        keys: None,
        icon: IconName::File,
        action: PaletteAction::SelectThread,
        thread_index: Some(index),
    }
}

/// Thread rows for `titles`, in order.
pub open spec fn thread_rows(titles: Seq<(usize, &str)>) -> Seq<PaletteItemView> {
    Seq::new(titles.len(), |i: int| thread_row(titles[i].0, titles[i].1@))
}

/// Whether a command belongs on the Ctrl+P list.
pub open spec fn is_quick_action(a: PaletteAction) -> bool {
    a == PaletteAction::NewThread || a == PaletteAction::OpenSearch || a
        == PaletteAction::OpenSettings
}

/// Commands among the first `k` of `items` that belong on the Ctrl+P list, in order.
pub open spec fn quick_commands(items: Seq<PaletteItemView>, k: int) -> Seq<PaletteItemView>
    decreases k,
{
    if k <= 0 {
        Seq::empty()
    } else {
        let rest = quick_commands(items, k - 1);
        if is_quick_action(items[k - 1].action) {
            rest.push(items[k - 1])
        } else {
            rest
        }
    }
}

/// The Ctrl+P commands are new chat, search and settings, in catalog order.
pub proof fn lemma_quick_commands()
    ensures
        quick_commands(catalog(), 13) == seq![catalog()[0], catalog()[1], catalog()[2]],
{
    reveal_with_fuel(quick_commands, 14);
    assert(quick_commands(catalog(), 13) =~= seq![catalog()[0], catalog()[1], catalog()[2]]);
}

/// Open/query/selection state for the palette overlay.
#[derive(Clone, Debug, PartialEq, Eq)]
pub struct CommandPaletteState {
    open: bool,
    mode: PaletteMode,
    query: String,
    selected: usize,
}

/// Mathematical view of [`CommandPaletteState`].
pub struct PaletteView {
    /// Whether the overlay is visible.
    pub open: bool,
    /// Quick vs commands.
    pub mode: PaletteMode,
    /// Filter text.
    pub query: Seq<char>,
    /// Highlighted row.
    pub selected: usize,
}

impl View for CommandPaletteState {
    type V = PaletteView;

    closed spec fn view(&self) -> PaletteView {
        PaletteView { open: self.open, mode: self.mode, query: self.query@, selected: self.selected }
    }
}

/// Selection after moving `sel` by `delta` and clamping to `[0, count)`.
pub open spec fn moved_selection(sel: usize, delta: i32, count: usize) -> usize {
    if count == 0 {
        0
    } else {
        let next = sel + delta;
        if next < 0 {
            0
        } else if next > count - 1 {
            (count - 1) as usize
        } else {
            next as usize
        }
    }
}

/// Moving by `delta` stays within the `i64` arithmetic of the move.
pub open spec fn move_sel_ok(sel: usize, delta: i32, count: usize) -> bool {
    count == 0 || (count - 1 <= i64::MAX && sel <= i64::MAX && sel + delta <= i64::MAX)
}

impl Default for CommandPaletteState {
    fn default() -> (s: Self)
        ensures
            s@ == (PaletteView { open: false, mode: PaletteMode::Quick, query: Seq::empty(), selected: 0 }),
    {
        Self::new()
    }
}

impl CommandPaletteState {
    /// Closed palette, quick mode, empty query.
    pub fn new() -> (s: Self)
        ensures
            s@ == (PaletteView { open: false, mode: PaletteMode::Quick, query: Seq::empty(), selected: 0 }),
    {
        Self { open: false, mode: PaletteMode::Quick, query: String::new(), selected: 0 }
    }

    /// Opens Ctrl+P (threads + a few commands) and clears the query.
    pub fn open_quick(&mut self)
        ensures
            final(self)@ == (PaletteView { open: true, mode: PaletteMode::Quick, query: Seq::empty(), selected: 0 }),
    {
        self.open = true;
        self.mode = PaletteMode::Quick;
        self.query = String::new();
        self.selected = 0;
    }

    /// Opens Ctrl+Shift+P (commands) and clears the query.
    pub fn open_commands(&mut self)
        ensures
            final(self)@ == (PaletteView {
                open: true,
                mode: PaletteMode::Commands,
                query: Seq::empty(),
                selected: 0,
            }),
    {
        self.open = true;
        self.mode = PaletteMode::Commands;
        self.query = String::new();
        self.selected = 0;
    }

    /// Dismisses the palette.
    pub fn close(&mut self)
        ensures
            final(self)@ == (PaletteView { open: false, query: Seq::empty(), selected: 0, ..old(self)@ }),
    {
        self.open = false;
        self.query = String::new();
        self.selected = 0;
    }

    /// Whether the overlay is visible.
    pub fn is_open(&self) -> (r: bool)
        ensures
            r == self@.open,
    {
        self.open
    }

    /// Quick vs commands.
    pub fn mode(&self) -> (r: PaletteMode)
        ensures
            r == self@.mode,
    {
        self.mode
    }

    /// Current filter text.
    pub fn query(&self) -> (r: &str)
        ensures
            r@ == self@.query,
    {
        self.query.as_str()
    }

    /// Replaces the filter and resets selection to the first row.
    pub fn set_query(&mut self, query: &str)
        ensures
            final(self)@ == (PaletteView { query: query@, selected: 0, ..old(self)@ }),
    {
        self.query = owned(query);
        self.selected = 0;
    }

    /// Moves the highlight by `delta`, clamping to `[0, item_count)`.
    pub fn move_sel(&mut self, delta: i32, item_count: usize)
        requires
            move_sel_ok(old(self)@.selected, delta, item_count),
        ensures
            final(self)@ == (PaletteView {
                selected: moved_selection(old(self)@.selected, delta, item_count),
                ..old(self)@
            }),
            item_count > 0 ==> final(self)@.selected < item_count,
    {
        if item_count == 0 {
            self.selected = 0;
            return;
        }
        let max: i64 = (item_count - 1) as i64;
        let next: i64 = self.selected as i64 + delta as i64;
        let clamped: i64 = if next < 0 {
            0
        } else if next > max {
            max
        } else {
            next
        };
        self.selected = clamped as usize;
    }

    /// Highlighted row index (not yet clamped to a live item list).
    pub fn selected_index(&self) -> (r: usize)
        ensures
            r == self@.selected,
    {
        self.selected
    }
}

fn item(label: &str, keys: Option<&'static str>, icon: IconName, action: PaletteAction) -> (r:
    PaletteItem)
    ensures
        r@ == command_row(label@, opt_chars(keys), icon, action),
{
    PaletteItem { label: owned(label), keys, icon, action, thread_index: None }
}

/// Static command catalog (no threads).
pub fn command_catalog() -> (r: Vec<PaletteItem>)
    ensures
        items_view(r@) == catalog(),
{
    let v = vec![
        item("New chat", Some("Ctrl+N"), IconName::MessageSquarePlus, PaletteAction::NewThread),
        item("Search", Some("Ctrl+F"), IconName::Search, PaletteAction::OpenSearch),
        item("Settings", Some("Ctrl+,"), IconName::Settings, PaletteAction::OpenSettings),
        item("Toggle sidebar", Some("Ctrl+B"), IconName::PanelLeft, PaletteAction::ToggleSidebar),
        item("Focus composer", Some("Ctrl+L"), IconName::Pencil, PaletteAction::FocusComposer),
        item("Capture screenshot", None, IconName::Camera, PaletteAction::Screenshot),
        item("Capture window", None, IconName::Maximize, PaletteAction::ScreenshotWindow),
        item("Keyboard shortcuts", Some("Ctrl+/"), IconName::Keyboard, PaletteAction::ToggleHelp),
        item("Zoom in", Some("Ctrl+="), IconName::ZoomIn, PaletteAction::ZoomIn),
        item("Zoom out", Some("Ctrl+-"), IconName::ZoomOut, PaletteAction::ZoomOut),
        item("Reset zoom", Some("Ctrl+0"), IconName::Maximize, PaletteAction::ZoomReset),
        item("Open memories", None, IconName::Sparkles, PaletteAction::OpenMemories),
        item("Open artifacts", None, IconName::Box, PaletteAction::OpenArtifacts),
    ];
    assert(items_view(v@) =~= catalog());
    v
}

/// Copy of a row with the same view.
fn copy_item(it: &PaletteItem) -> (r: PaletteItem)
    ensures
        r@ == it@,
{
    PaletteItem {
        label: it.label.clone(),
        keys: it.keys,
        icon: it.icon,
        action: it.action,
        thread_index: it.thread_index,
    }
}

/// Case-insensitive substring filter on [`PaletteItem::label`].
///
/// Empty or whitespace-only queries return every item.
pub fn filter_items(items: &[PaletteItem], query: &str) -> (r: Vec<PaletteItem>)
    ensures
        items_view(r@) == filter_result(items_view(items@), query@),
        ascii_palette(items_view(items@), query@) ==> items_view(r@) == filter_result_ascii(
            items_view(items@),
            query@,
        ),
{
    let q = trim_str(query);
    let blank = q.len() == 0;
    let qs = crate::text::string_of(q.as_slice());
    let ql = to_lowercase(qs.as_str());
    let qv = chars_of(ql.as_str());
    let mut out: Vec<PaletteItem> = Vec::new();
    let mut i: usize = 0;
    while i < items.len()
        invariant
            i <= items.len(),
            blank == (trim(query@).len() == 0),
            qv@ == unicode_lowercase(trim(query@)),
            blank ==> items_view(out@) == items_view(items@).take(i as int),
            !blank ==> items_view(out@) == filtered(items_view(items@), qv@, i as int),
            is_ascii_text(trim(query@)) ==> qv@ == lower_seq(trim(query@)),
            !blank && ascii_palette(items_view(items@), query@) ==> items_view(out@)
                == filtered_ascii(items_view(items@), qv@, i as int),
        decreases items.len() - i,
    {
        let it = &items[i];
        proof {
            assert(items_view(items@)[i as int] == it@);
        }
        let keep = if blank {
            true
        } else {
            let l = to_lowercase(it.label.as_str());
            let lv = chars_of(l.as_str());
            contains_chars(lv.as_slice(), qv.as_slice())
        };
        proof {
            assert(items_view(items@)[i as int] == it@);
        }
        if keep {
            let ghost prev = out@;
            let c = copy_item(it);
            out.push(c);
            proof {
                assert(items_view(out@) =~= items_view(prev).push(it@));
            }
        }
        proof {
            if blank {
                assert(items_view(items@).take(i + 1) =~= items_view(items@).take(i as int).push(
                    it@,
                ));
            }
        }
        i += 1;
    }
    proof {
        if blank {
            assert(items_view(items@).take(items@.len() as int) =~= items_view(items@));
        }
    }
    out
}

/// Thread rows for Ctrl+P. `titles` is `(index, title)`.
pub fn thread_items(titles: &[(usize, &str)]) -> (r: Vec<PaletteItem>)
    ensures
        items_view(r@) == thread_rows(titles@),
{
    let mut out: Vec<PaletteItem> = Vec::new();
    let mut i: usize = 0;
    while i < titles.len()
        invariant
            i <= titles.len(),
            items_view(out@) == thread_rows(titles@).take(i as int),
        decreases titles.len() - i,
    {
        let (index, title) = titles[i];
        let row = PaletteItem {
            label: owned(title),
            keys: None,
            icon: IconName::File,
            action: PaletteAction::SelectThread,
            thread_index: Some(index),
        };
        let ghost prev = out@;
        out.push(row);
        proof {
            assert(titles@[i as int].1@ == title@);
            assert(row@ == thread_row(index, title@));
            assert(items_view(out@) =~= items_view(prev).push(row@));
            assert(items_view(out@) =~= thread_rows(titles@).take(i + 1));
        }
        i += 1;
    }
    proof {
        assert(thread_rows(titles@).take(titles@.len() as int) =~= thread_rows(titles@));
    }
    out
}

/// Ctrl+P rows: threads, then new chat, search, and settings.
pub fn quick_items(titles: &[(usize, &str)]) -> (r: Vec<PaletteItem>)
    ensures
        items_view(r@) == thread_rows(titles@) + quick_commands(catalog(), 13),
        items_view(r@) == thread_rows(titles@) + seq![catalog()[0], catalog()[1], catalog()[2]],
{
    let mut items = thread_items(titles);
    let cat = command_catalog();
    let ghost base = items_view(items@);
    let mut k: usize = 0;
    while k < cat.len()
        invariant
            k <= cat.len(),
            items_view(cat@) == catalog(),
            base == thread_rows(titles@),
            items_view(items@) == base + quick_commands(catalog(), k as int),
        decreases cat.len() - k,
    {
        let it = &cat[k];
        proof {
            assert(catalog()[k as int] == it@);
        }
        let quick = match it.action {
            PaletteAction::NewThread | PaletteAction::OpenSearch | PaletteAction::OpenSettings => true,
            _ => false,
        };
        if quick {
            let ghost prev = items@;
            let c = copy_item(it);
            items.push(c);
            proof {
                assert(items_view(items@) =~= items_view(prev).push(it@));
                assert(items_view(items@) =~= base + quick_commands(catalog(), k + 1));
            }
        }
        k += 1;
    }
    proof {
        assert(items_view(cat@).len() == cat@.len());
        assert(k == 13);
        lemma_quick_commands();
    }
    items
}

} // verus!
