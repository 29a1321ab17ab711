//! Keyboard-first navigation state machine and discoverable shortcut catalog.
//!
//! Focus regions, thread highlight, scroll intents, help overlay.

use crate::text::str_eq;
use vstd::prelude::*;

verus! {

/// Which primary chrome region currently owns keyboard focus.
#[derive(Debug, Clone, Copy, PartialEq, Eq, Structural)]
pub enum FocusRegion {
    /// Thread list / sidebar chrome.
    Sidebar,
    /// Message transcript scroll area.
    Messages,
    /// Composer text input.
    Composer,
}

/// Vertical scroll intent for the message list.
#[derive(Debug, Clone, Copy, PartialEq, Eq, Structural)]
pub enum ScrollDirection {
    /// Page toward older / top content.
    Up,
    /// Page toward newer / bottom content.
    Down,
}

/// Result of handling a key through the navigation state machine.
#[derive(Debug, Clone, PartialEq, Eq, Structural)]
pub enum NavAction {
    /// Key was ignored by navigation (may belong to composer/editor).
    Ignored,
    /// Primary focus region changed.
    FocusChanged(FocusRegion),
    /// Sidebar thread highlight moved.
    ThreadHighlightChanged {
        /// New highlighted index.
        index: usize,
    },
    /// Enter should open/select the highlighted thread.
    SelectThread {
        /// Thread index to select.
        index: usize,
    },
    /// Page the message list.
    ScrollMessages(ScrollDirection),
    /// Help overlay visibility flipped.
    ToggleHelp,
    /// Global search overlay visibility flipped.
    ToggleSearch,
}

/// Normalized key event for the navigation state machine.
#[derive(Debug, Clone, Copy, PartialEq, Eq)]
pub struct KeyInput<'a> {
    /// GPUI-style key name (`"tab"`, `"pageup"`, `"1"`, …).
    pub key: &'a str,
    /// Control / Ctrl modifier.
    pub control: bool,
    /// Shift modifier.
    pub shift: bool,
    /// Alt / Option modifier.
    pub alt: bool,
}

/// Mutable keyboard navigation state for the shell.
#[derive(Debug, Clone, PartialEq, Eq, Structural)]
pub struct KeyboardNavState {
    focus: FocusRegion,
    thread_highlight: Option<usize>,
    help_visible: bool,
}

/// Mathematical view of [`KeyboardNavState`].
pub struct NavView {
    /// Focused region.
    pub focus: FocusRegion,
    /// Highlighted sidebar thread.
    pub highlight: Option<usize>,
    /// Whether the help overlay is open.
    pub help: bool,
}

impl View for KeyboardNavState {
    type V = NavView;

    closed spec fn view(&self) -> NavView {
        NavView { focus: self.focus, highlight: self.thread_highlight, help: self.help_visible }
    }
}

/// Focus after Tab (`reverse == false`) or Shift+Tab.
pub open spec fn next_focus(f: FocusRegion, reverse: bool) -> FocusRegion {
    match (f, reverse) {
        (FocusRegion::Composer, false) => FocusRegion::Sidebar,
        (FocusRegion::Sidebar, false) => FocusRegion::Messages,
        (FocusRegion::Messages, false) => FocusRegion::Composer,
        (FocusRegion::Composer, true) => FocusRegion::Messages,
        (FocusRegion::Messages, true) => FocusRegion::Sidebar,
        (FocusRegion::Sidebar, true) => FocusRegion::Composer,
    }
}

/// Highlight after entering the sidebar: none without threads, otherwise the
/// current one (or the first) clamped to the last thread.
pub open spec fn ensured_highlight(h: Option<usize>, count: usize) -> Option<usize> {
    if count == 0 {
        None
    } else {
        let cur = match h {
            Some(i) => i,
            None => 0,
        };
        Some(if cur <= count - 1 {
            cur
        } else {
            (count - 1) as usize
        })
    }
}

/// State after focusing `region`.
pub open spec fn focused(v: NavView, region: FocusRegion, count: usize) -> NavView {
    NavView {
        focus: region,
        highlight: if region == FocusRegion::Sidebar {
            ensured_highlight(v.highlight, count)
        } else {
            v.highlight
        },
        help: v.help,
    }
}

/// State after Tab / Shift+Tab.
pub open spec fn cycled(v: NavView, reverse: bool, count: usize) -> NavView {
    focused(v, next_focus(v.focus, reverse), count)
}

/// Highlight the move starts from.
pub open spec fn move_base(v: NavView) -> usize {
    match v.highlight {
        Some(i) => i,
        None => 0,
    }
}

/// Moving the highlight by `delta` does not overflow: the `i32` arithmetic
/// of the move stays in range and the clamp bounds are ordered.
pub open spec fn move_ok(v: NavView, delta: i32, count: usize) -> bool {
    count == 0 || ((count as i32) >= 1 && i32::MIN <= (move_base(v) as i32) + delta <= i32::MAX)
}

/// Highlight after moving by `delta` (`clamp` into the `i32` thread range).
pub open spec fn moved_highlight(v: NavView, delta: i32, count: usize) -> Option<usize> {
    if count == 0 {
        None
    } else {
        let next = (move_base(v) as i32) + delta;
        let hi = (count as i32) - 1;
        Some(
            (if next < 0 {
                0
            } else if next > hi {
                hi
            } else {
                next
            }) as usize,
        )
    }
}

/// `(state, consumed, action)` after a key, as [`KeyboardNavState::handle_key`] computes it.
pub open spec fn key_result(v: NavView, key: Seq<char>, control: bool, shift: bool, alt: bool, count: usize) -> (
    NavView,
    bool,
    NavAction,
) {
    if alt {
        (v, false, NavAction::Ignored)
    } else if control && (key == "/"@ || key == "?"@) {
        (NavView { help: !v.help, ..v }, true, NavAction::ToggleHelp)
    } else if control && key == "f"@ {
        (v, true, NavAction::ToggleSearch)
    } else if control && key == "1"@ {
        (
            focused(v, FocusRegion::Sidebar, count),
            true,
            NavAction::FocusChanged(FocusRegion::Sidebar),
        )
    } else if control && key == "2"@ {
        (
            focused(v, FocusRegion::Messages, count),
            true,
            NavAction::FocusChanged(FocusRegion::Messages),
        )
    } else if control && key == "3"@ {
        (
            focused(v, FocusRegion::Composer, count),
            true,
            NavAction::FocusChanged(FocusRegion::Composer),
        )
    } else if key == "escape"@ && v.help {
        (NavView { help: false, ..v }, true, NavAction::ToggleHelp)
    } else if control {
        (v, false, NavAction::Ignored)
    } else if key == "tab"@ {
        let w = cycled(v, shift, count);
        (w, true, NavAction::FocusChanged(w.focus))
    } else {
        match v.focus {
            FocusRegion::Sidebar => if key == "up"@ || key == "down"@ {
                let h = moved_highlight(
                    v,
                    if key == "up"@ {
                        -1i32
                    } else {
                        1i32
                    },
                    count,
                );
                (
                    NavView { highlight: h, ..v },
                    true,
                    match h {
                        Some(index) => NavAction::ThreadHighlightChanged { index },
                        None => NavAction::Ignored,
                    },
                )
            } else if key == "enter"@ && !shift {
                (
                    v,
                    true,
                    match v.highlight {
                        Some(index) => NavAction::SelectThread { index },
                        None => NavAction::Ignored,
                    },
                )
            } else {
                (v, false, NavAction::Ignored)
            },
            FocusRegion::Messages => if key == "pageup"@ {
                (v, true, NavAction::ScrollMessages(ScrollDirection::Up))
            } else if key == "pagedown"@ {
                (v, true, NavAction::ScrollMessages(ScrollDirection::Down))
            } else {
                (v, false, NavAction::Ignored)
            },
            FocusRegion::Composer => (v, false, NavAction::Ignored),
        }
    }
}

/// A key that moves the sidebar highlight does so without overflow.
pub open spec fn key_ok(v: NavView, key: Seq<char>, control: bool, alt: bool, count: usize) -> bool {
    (!alt && !control && !(key == "escape"@ && v.help) && v.focus == FocusRegion::Sidebar) ==> (
    (key == "up"@ ==> move_ok(v, -1i32, count)) && (key == "down"@ ==> move_ok(v, 1i32, count)))
}

impl KeyboardNavState {
    /// Creates navigation state with composer focus.
    pub fn new() -> (s: Self)
        ensures
            s@ == (NavView { focus: FocusRegion::Composer, highlight: None, help: false }),
    {
        Self { focus: FocusRegion::Composer, thread_highlight: None, help_visible: false }
    }

    /// Current focus region.
    pub fn focus(&self) -> (r: FocusRegion)
        ensures
            r == self@.focus,
    {
        self.focus
    }

    /// Highlighted thread index in the sidebar, if any.
    pub fn thread_highlight(&self) -> (r: Option<usize>)
        ensures
            r == self@.highlight,
    {
        self.thread_highlight
    }

    /// Whether the keyboard shortcut help overlay is open.
    pub fn help_visible(&self) -> (r: bool)
        ensures
            r == self@.help,
    {
        self.help_visible
    }

    /// Sets focus and ensures a valid thread highlight when entering the sidebar.
    pub fn set_focus(&mut self, region: FocusRegion, thread_count: usize)
        ensures
            final(self)@ == focused(old(self)@, region, thread_count),
            region == FocusRegion::Sidebar && thread_count > 0 ==> final(self)@.highlight is Some
                && final(self)@.highlight->0 < thread_count,
    {
        self.focus = region;
        if region == FocusRegion::Sidebar {
            self.ensure_thread_highlight(thread_count);
        }
    }

    /// Cycles focus forward (Tab) or backward (Shift+Tab).
    pub fn cycle_focus(&mut self, reverse: bool, thread_count: usize) -> (r: FocusRegion)
        ensures
            final(self)@ == cycled(old(self)@, reverse, thread_count),
            r == final(self)@.focus,
    {
        self.focus = match (self.focus, reverse) {
            (FocusRegion::Composer, false) => FocusRegion::Sidebar,
            (FocusRegion::Sidebar, false) => FocusRegion::Messages,
            (FocusRegion::Messages, false) => FocusRegion::Composer,
            (FocusRegion::Composer, true) => FocusRegion::Messages,
            (FocusRegion::Messages, true) => FocusRegion::Sidebar,
            (FocusRegion::Sidebar, true) => FocusRegion::Composer,
        };
        if self.focus == FocusRegion::Sidebar {
            self.ensure_thread_highlight(thread_count);
        }
        self.focus
    }

    fn ensure_thread_highlight(&mut self, thread_count: usize)
        ensures
            final(self).thread_highlight == ensured_highlight(
                old(self).thread_highlight,
                thread_count,
            ),
            final(self).focus == old(self).focus,
            final(self).help_visible == old(self).help_visible,
    {
        if thread_count == 0 {
            self.thread_highlight = None;
            return;
        }
        let cur = match self.thread_highlight {
            Some(i) => i,
            None => 0,
        };
        let last = thread_count - 1;
        self.thread_highlight = Some(
            if cur <= last {
                cur
            } else {
                last
            },
        );
    }

    /// Moves the sidebar highlight by `delta`, clamping to `[0, thread_count)`.
    pub fn move_thread(&mut self, delta: i32, thread_count: usize) -> (r: Option<usize>)
        requires
            move_ok(old(self)@, delta, thread_count),
        ensures
            r == moved_highlight(old(self)@, delta, thread_count),
            final(self)@ == (NavView { highlight: r, ..old(self)@ }),
            thread_count > 0 && thread_count <= i32::MAX ==> r is Some && r->0 < thread_count,
    {
        if thread_count == 0 {
            self.thread_highlight = None;
            return None;
        }
        let base = match self.thread_highlight {
            Some(i) => i,
            None => 0,
        };
        let current: i32 = #[verifier::truncate] (base as i32);
        let count: i32 = #[verifier::truncate] (thread_count as i32);
        let hi = count - 1;
        let sum = current + delta;
        let clamped = if sum < 0 {
            0
        } else if sum > hi {
            hi
        } else {
            sum
        };
        let next = clamped as usize;
        proof {
            if thread_count <= i32::MAX {
                assert((thread_count as i32) == thread_count);
            }
        }
        self.thread_highlight = Some(next);
        Some(next)
    }

    /// Handles a key for navigation. Returns `(consumed, action)`.
    ///
    /// When `consumed` is true, the shell should not forward the key to the composer.
    pub fn handle_key(&mut self, key: KeyInput<'_>, thread_count: usize) -> (r: (bool, NavAction))
        requires
            key_ok(old(self)@, key.key@, key.control, key.alt, thread_count),
        ensures
            key_result(old(self)@, key.key@, key.control, key.shift, key.alt, thread_count) == (
            final(self)@, r.0, r.1),
    {
        if key.alt {
            return (false, NavAction::Ignored);
        }
        if key.control {
            if str_eq(key.key, "/") || str_eq(key.key, "?") {
                self.help_visible = !self.help_visible;
                return (true, NavAction::ToggleHelp);
            }
            if str_eq(key.key, "f") {
                return (true, NavAction::ToggleSearch);
            }
            if str_eq(key.key, "1") {
                self.set_focus(FocusRegion::Sidebar, thread_count);
                return (true, NavAction::FocusChanged(FocusRegion::Sidebar));
            }
            if str_eq(key.key, "2") {
                self.set_focus(FocusRegion::Messages, thread_count);
                return (true, NavAction::FocusChanged(FocusRegion::Messages));
            }
            if str_eq(key.key, "3") {
                self.set_focus(FocusRegion::Composer, thread_count);
                return (true, NavAction::FocusChanged(FocusRegion::Composer));
            }
        }
        if str_eq(key.key, "escape") && self.help_visible {
            self.help_visible = false;
            return (true, NavAction::ToggleHelp);
        }
        if key.control {
            return (false, NavAction::Ignored);
        }
        if str_eq(key.key, "tab") {
            let focus = self.cycle_focus(key.shift, thread_count);
            return (true, NavAction::FocusChanged(focus));
        }
        match self.focus {
            FocusRegion::Sidebar => {
                let up = str_eq(key.key, "up");
                if up || str_eq(key.key, "down") {
                    let delta: i32 = if up {
                        -1
                    } else {
                        1
                    };
                    match self.move_thread(delta, thread_count) {
                        Some(index) => (true, NavAction::ThreadHighlightChanged { index }),
                        None => (true, NavAction::Ignored),
                    }
                } else if str_eq(key.key, "enter") && !key.shift {
                    match self.thread_highlight {
                        Some(index) => (true, NavAction::SelectThread { index }),
                        None => (true, NavAction::Ignored),
                    }
                } else {
                    (false, NavAction::Ignored)
                }
            },
            FocusRegion::Messages => {
                if str_eq(key.key, "pageup") {
                    (true, NavAction::ScrollMessages(ScrollDirection::Up))
                } else if str_eq(key.key, "pagedown") {
                    (true, NavAction::ScrollMessages(ScrollDirection::Down))
                } else {
                    (false, NavAction::Ignored)
                }
            },
            FocusRegion::Composer => (false, NavAction::Ignored),
        }
    }
}

/// Three Tab presses in the same direction return focus to where it started.
pub proof fn law_focus_cycle_returns(v: NavView, reverse: bool, count: usize)
    ensures
        cycled(cycled(cycled(v, reverse, count), reverse, count), reverse, count).focus == v.focus,
{
}

/// Tab then Shift+Tab returns focus to where it started.
pub proof fn law_focus_cycle_reverses(v: NavView, reverse: bool, count: usize)
    ensures
        cycled(cycled(v, reverse, count), !reverse, count).focus == v.focus,
{
}

/// With the messages focused and neither Ctrl nor Alt held, PageUp pages the
/// message list up and PageDown pages it down, leaving the state alone; so
/// after Ctrl+2 focuses the messages, PageUp scrolls up.
pub proof fn law_page_keys_scroll_messages(v: NavView, shift: bool, count: usize)
    ensures
        v.focus == FocusRegion::Messages ==> key_result(v, "pageup"@, false, shift, false, count) == (
            v,
            true,
            NavAction::ScrollMessages(ScrollDirection::Up),
        ),
        v.focus == FocusRegion::Messages ==> key_result(v, "pagedown"@, false, shift, false, count)
            == (v, true, NavAction::ScrollMessages(ScrollDirection::Down)),
        key_result(key_result(v, "2"@, true, false, false, count).0, "pageup"@, false, false, false, count).2
            == NavAction::ScrollMessages(ScrollDirection::Up),
        key_result(key_result(v, "2"@, true, false, false, count).0, "pagedown"@, false, false, false, count).2
            == NavAction::ScrollMessages(ScrollDirection::Down),
{
    reveal_strlit("pageup");
    reveal_strlit("pagedown");
    reveal_strlit("escape");
    reveal_strlit("tab");
    reveal_strlit("2");
    reveal_strlit("/");
    reveal_strlit("?");
    reveal_strlit("f");
    reveal_strlit("1");
    assert("pageup"@[0] != "escape"@[0]);
    assert("pageup"@.len() != "tab"@.len());
    assert("pagedown"@.len() != "escape"@.len());
    assert("pagedown"@.len() != "tab"@.len());
    assert("pagedown"@.len() != "pageup"@.len());
    assert("2"@ != "/"@ && "2"@ != "?"@ && "2"@ != "f"@ && "2"@ != "1"@) by {
        assert("2"@[0] != "/"@[0]);
        assert("2"@[0] != "?"@[0]);
        assert("2"@[0] != "f"@[0]);
        assert("2"@[0] != "1"@[0]);
    }
}

/// One discoverable keyboard shortcut row for tooltips / help overlay.
#[derive(Debug, Clone, Copy, PartialEq, Eq)]
pub struct ShortcutHint {
    /// Key chord label (e.g. `"Ctrl+N"`).
    pub keys: &'static str,
    /// Short action description.
    pub action: &'static str,
}

/// The char view of a hint: `(keys, action)`.
pub open spec fn hint_view(h: ShortcutHint) -> (Seq<char>, Seq<char>) {
    (h.keys@, h.action@)
}

/// Catalog of navigation shortcuts for discoverability.
pub fn shortcut_catalog() -> (r: &'static [ShortcutHint])
    ensures
        r@.map_values(|h: ShortcutHint| hint_view(h)) == seq![
            ("Enter"@, "Send message"@),
            ("Shift+Enter"@, "Insert newline"@),
            ("Esc"@, "Cancel generation / close help"@),
            ("Ctrl+N"@, "New thread"@),
            ("Ctrl+L / Ctrl+K"@, "Focus composer"@),
            ("Ctrl+B"@, "Collapse / expand sidebar"@),
            ("Ctrl+1"@, "Focus sidebar"@),
            ("Ctrl+2"@, "Focus message list"@),
            ("Ctrl+3"@, "Focus composer"@),
            ("Tab"@, "Cycle focus (sidebar → messages → composer)"@),
            ("↑ / ↓"@, "Move thread highlight (sidebar focused)"@),
            ("Enter"@, "Open highlighted thread (sidebar focused)"@),
            ("Page Up / Page Down"@, "Scroll message list"@),
            ("Ctrl+F / Ctrl+Shift+F"@, "Open global search"@),
            ("Ctrl+/"@, "Toggle keyboard shortcut help"@),
        ],
{
    let r: &'static [ShortcutHint] = &[
        ShortcutHint { keys: "Enter", action: "Send message" },
        ShortcutHint { keys: "Shift+Enter", action: "Insert newline" },
        ShortcutHint { keys: "Esc", action: "Cancel generation / close help" },
        ShortcutHint { keys: "Ctrl+N", action: "New thread" },
        ShortcutHint { keys: "Ctrl+L / Ctrl+K", action: "Focus composer" },
        ShortcutHint { keys: "Ctrl+B", action: "Collapse / expand sidebar" },
        ShortcutHint { keys: "Ctrl+1", action: "Focus sidebar" },
        ShortcutHint { keys: "Ctrl+2", action: "Focus message list" },
        ShortcutHint { keys: "Ctrl+3", action: "Focus composer" },
        ShortcutHint { keys: "Tab", action: "Cycle focus (sidebar → messages → composer)" },
        ShortcutHint { keys: "↑ / ↓", action: "Move thread highlight (sidebar focused)" },
        ShortcutHint { keys: "Enter", action: "Open highlighted thread (sidebar focused)" },
        ShortcutHint { keys: "Page Up / Page Down", action: "Scroll message list" },
        ShortcutHint { keys: "Ctrl+F / Ctrl+Shift+F", action: "Open global search" },
        ShortcutHint { keys: "Ctrl+/", action: "Toggle keyboard shortcut help" },
    ];
    assert(r@.map_values(|h: ShortcutHint| hint_view(h)) =~= seq![
        ("Enter"@, "Send message"@),
        ("Shift+Enter"@, "Insert newline"@),
        ("Esc"@, "Cancel generation / close help"@),
        ("Ctrl+N"@, "New thread"@),
        ("Ctrl+L / Ctrl+K"@, "Focus composer"@),
        ("Ctrl+B"@, "Collapse / expand sidebar"@),
        ("Ctrl+1"@, "Focus sidebar"@),
        ("Ctrl+2"@, "Focus message list"@),
        ("Ctrl+3"@, "Focus composer"@),
        ("Tab"@, "Cycle focus (sidebar → messages → composer)"@),
        ("↑ / ↓"@, "Move thread highlight (sidebar focused)"@),
        ("Enter"@, "Open highlighted thread (sidebar focused)"@),
        ("Page Up / Page Down"@, "Scroll message list"@),
        ("Ctrl+F / Ctrl+Shift+F"@, "Open global search"@),
        ("Ctrl+/"@, "Toggle keyboard shortcut help"@),
    ]);
    r
}

} // verus!
