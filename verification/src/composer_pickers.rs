//! Composer `@` attachment picker and `/` action picker.
//!
//! Filterable inline menus over the token before the composer cursor.

use crate::completions::{cursor_token, cursor_token_start, token_before_cursor, token_cursor_ok};
use crate::text::{
    chars_of, contains, contains_chars, lower_chars, lower_seq, owned, starts, starts_with_chars,
    str_starts_with, utf8_len,
};
use vstd::prelude::*;

verus! {

/// Which picker menu is active.
#[derive(Debug, Clone, Copy, PartialEq, Eq, Structural)]
pub enum PickerKind {
    /// `@` attachment source menu.
    AtAttachment,
    /// `/` slash-command menu.
    SlashAction,
}

/// Attachment source selected from the `@` picker.
#[derive(Debug, Clone, Copy, PartialEq, Eq, Structural)]
pub enum AtAttachmentKind {
    /// `@file:` path attachment.
    File,
    /// `@folder:` directory attachment with file selection.
    Folder,
    /// `@clipboard` paste attachment.
    Clipboard,
    /// `@screenshot` capture attachment.
    Screenshot,
    /// `@artifact:` saved artifact ref.
    Artifact,
    /// `@memory:` saved memory ref.
    Memory,
}

/// Slash command selected from the `/` picker.
#[derive(Debug, Clone, Copy, PartialEq, Eq, Structural)]
pub enum SlashActionKind {
    /// `/new` — create a new thread.
    NewThread,
    /// `/clear` — clear composer text.
    ClearComposer,
    /// `/model` — switch the active model.
    SwitchModel,
    /// `/clipboard-watch` — toggle opt-in clipboard watch.
    ClipboardWatchToggle,
    /// `/clipboard-confirm` — confirm pending clipboard-watch attach proposal.
    ClipboardWatchConfirm,
    /// `/clipboard-dismiss` — dismiss pending clipboard-watch proposal.
    ClipboardWatchDismiss,
}

/// One row in an `@` or `/` picker menu.
#[derive(Debug, Clone, Copy, PartialEq, Eq)]
pub struct PickerItem {
    /// Text inserted / matched (e.g. `"@file:"`, `"/new"`).
    pub insert: &'static str,
    /// Human-readable label.
    pub label: &'static str,
    kind: PickerItemKind,
}

#[derive(Debug, Clone, Copy, PartialEq, Eq, Structural)]
enum PickerItemKind {
    At(AtAttachmentKind),
    Slash(SlashActionKind),
}

/// Mathematical view of a [`PickerItem`].
pub struct PickerItemView {
    /// Inserted text.
    pub insert: Seq<char>,
    /// Label.
    pub label: Seq<char>,
    /// Attachment source, for `@` rows.
    pub at: Option<AtAttachmentKind>,
    /// Slash action, for `/` rows.
    pub slash: Option<SlashActionKind>,
}

impl View for PickerItem {
    type V = PickerItemView;

    closed spec fn view(&self) -> PickerItemView {
        PickerItemView {
            insert: self.insert@,
            label: self.label@,
            at: match self.kind {
                PickerItemKind::At(k) => Some(k),
                PickerItemKind::Slash(_) => None,
            },
            slash: match self.kind {
                PickerItemKind::Slash(k) => Some(k),
                PickerItemKind::At(_) => None,
            },
        }
    }
}

/// Views of picker rows.
pub open spec fn items_view(s: Seq<PickerItem>) -> Seq<PickerItemView> {
    s.map_values(|i: PickerItem| i@)
}

impl PickerItem {
    /// Returns the `@` attachment kind when this item is an attachment option.
    pub fn at_kind(self) -> (r: Option<AtAttachmentKind>)
        ensures
            r == self@.at,
    {
        match self.kind {
            PickerItemKind::At(k) => Some(k),
            PickerItemKind::Slash(_) => None,
        }
    }

    /// Returns the slash action kind when this item is a slash command.
    pub fn slash_kind(self) -> (r: Option<SlashActionKind>)
        ensures
            r == self@.slash,
    {
        match self.kind {
            PickerItemKind::Slash(k) => Some(k),
            PickerItemKind::At(_) => None,
        }
    }
}

/// Active picker snapshot for the current composer token.
#[derive(Debug, Clone, PartialEq, Eq)]
pub struct ActivePicker {
    /// `@` vs `/` menu.
    pub kind: PickerKind,
    /// Byte offset of the trigger token.
    pub token_start: usize,
    /// Text after `@` or `/` used for filtering.
    pub query: String,
    /// Filtered options.
    pub items: Vec<PickerItem>,
}

/// Mathematical view of an [`ActivePicker`].
pub struct ActivePickerView {
    /// Menu kind.
    pub kind: PickerKind,
    /// Byte offset of the trigger token.
    pub token_start: usize,
    /// Filter text.
    pub query: Seq<char>,
    /// Filtered rows.
    pub items: Seq<PickerItemView>,
}

impl View for ActivePicker {
    type V = ActivePickerView;

    open spec fn view(&self) -> ActivePickerView {
        ActivePickerView {
            kind: self.kind,
            token_start: self.token_start,
            query: self.query@,
            items: items_view(self.items@),
        }
    }
}

/// An `@` row of the catalog.
pub open spec fn at_row(insert: Seq<char>, label: Seq<char>, k: AtAttachmentKind) -> PickerItemView {
    PickerItemView { insert, label, at: Some(k), slash: None }
}

/// A `/` row of the catalog.
pub open spec fn slash_row(insert: Seq<char>, label: Seq<char>, k: SlashActionKind) -> PickerItemView {
    PickerItemView { insert, label, at: None, slash: Some(k) }
}

/// The `@` attachment sources, in menu order.
pub open spec fn at_catalog() -> Seq<PickerItemView> {
    seq![
        at_row("@file:"@, "Attach file"@, AtAttachmentKind::File),
        at_row("@folder:"@, "Attach folder"@, AtAttachmentKind::Folder),
        at_row("@clipboard"@, "Attach clipboard"@, AtAttachmentKind::Clipboard),
        at_row("@screenshot"@, "Capture screenshot"@, AtAttachmentKind::Screenshot),
        at_row("@artifact:"@, "Attach artifact"@, AtAttachmentKind::Artifact),
        at_row("@memory:"@, "Attach memory"@, AtAttachmentKind::Memory),
    ]
}

/// The `/` slash actions, in menu order.
pub open spec fn slash_catalog() -> Seq<PickerItemView> {
    seq![
        slash_row("/new"@, "New thread"@, SlashActionKind::NewThread),
        slash_row("/clear"@, "Clear composer"@, SlashActionKind::ClearComposer),
        slash_row("/model"@, "Switch model"@, SlashActionKind::SwitchModel),
        slash_row("/clipboard-watch"@, "Toggle clipboard watch"@, SlashActionKind::ClipboardWatchToggle),
        slash_row("/clipboard-confirm"@, "Confirm clipboard attach"@, SlashActionKind::ClipboardWatchConfirm),
        slash_row("/clipboard-dismiss"@, "Dismiss clipboard proposal"@, SlashActionKind::ClipboardWatchDismiss),
    ]
}

/// Catalog of `@` attachment sources.
pub fn at_attachment_catalog() -> (r: &'static [PickerItem])
    ensures
        items_view(r@) == at_catalog(),
{
    let v: &'static [PickerItem] = &[
        PickerItem {
            insert: "@file:",
            label: "Attach file",
            kind: PickerItemKind::At(AtAttachmentKind::File),
        },
        PickerItem {
            insert: "@folder:",
            label: "Attach folder",
            kind: PickerItemKind::At(AtAttachmentKind::Folder),
        },
        PickerItem {
            insert: "@clipboard",
            label: "Attach clipboard",
            kind: PickerItemKind::At(AtAttachmentKind::Clipboard),
        },
        PickerItem {
            insert: "@screenshot",
            label: "Capture screenshot",
            kind: PickerItemKind::At(AtAttachmentKind::Screenshot),
        },
        PickerItem {
            insert: "@artifact:",
            label: "Attach artifact",
            kind: PickerItemKind::At(AtAttachmentKind::Artifact),
        },
        PickerItem {
            insert: "@memory:",
            label: "Attach memory",
            kind: PickerItemKind::At(AtAttachmentKind::Memory),
        },
    ];
    assert(items_view(v@) =~= at_catalog());
    v
}

/// Catalog of `/` slash actions.
pub fn slash_action_catalog() -> (r: &'static [PickerItem])
    ensures
        items_view(r@) == slash_catalog(),
{
    let v: &'static [PickerItem] = &[
        PickerItem {
            insert: "/new",
            label: "New thread",
            kind: PickerItemKind::Slash(SlashActionKind::NewThread),
        },
        PickerItem {
            insert: "/clear",
            label: "Clear composer",
            kind: PickerItemKind::Slash(SlashActionKind::ClearComposer),
        },
        PickerItem {
            insert: "/model",
            label: "Switch model",
            kind: PickerItemKind::Slash(SlashActionKind::SwitchModel),
        },
        PickerItem {
            insert: "/clipboard-watch",
            label: "Toggle clipboard watch",
            kind: PickerItemKind::Slash(SlashActionKind::ClipboardWatchToggle),
        },
        PickerItem {
            insert: "/clipboard-confirm",
            label: "Confirm clipboard attach",
            kind: PickerItemKind::Slash(SlashActionKind::ClipboardWatchConfirm),
        },
        PickerItem {
            insert: "/clipboard-dismiss",
            label: "Dismiss clipboard proposal",
            kind: PickerItemKind::Slash(SlashActionKind::ClipboardWatchDismiss),
        },
    ];
    assert(items_view(v@) =~= slash_catalog());
    v
}

/// `s` without its leading `@` and `/` chars (`trim_start_matches(['@', '/'])`).
pub open spec fn strip_triggers(s: Seq<char>) -> Seq<char>
    decreases s.len(),
{
    if s.len() > 0 && (s[0] == '@' || s[0] == '/') {
        strip_triggers(s.drop_first())
    } else {
        s
    }
}

/// Whether a row matches the lower-cased query `q`: every row for an empty
/// query; otherwise the insert text without triggers starts with `q`, or the
/// label or the insert text contains it (ASCII case-insensitive).
pub open spec fn row_matches(item: PickerItemView, q: Seq<char>) -> bool {
    ||| q.len() == 0
    ||| starts(lower_seq(strip_triggers(item.insert)), q)
    ||| contains(lower_seq(item.label), q)
    ||| contains(lower_seq(item.insert), q)
}

/// Rows among the first `k` of `items` matching `q`, in order.
pub open spec fn rows_matching(items: Seq<PickerItemView>, q: Seq<char>, k: int) -> Seq<
    PickerItemView,
>
    decreases k,
{
    if k <= 0 {
        Seq::empty()
    } else {
        let rest = rows_matching(items, q, k - 1);
        if row_matches(items[k - 1], q) {
            rest.push(items[k - 1])
        } else {
            rest
        }
    }
}

fn strip_trigger_chars(s: &[char]) -> (r: Vec<char>)
    ensures
        r@ == strip_triggers(s@),
{
    let mut i: usize = 0;
    assert(s@.subrange(0, s@.len() as int) =~= s@);
    while i < s.len() && (s[i] == '@' || s[i] == '/')
        invariant
            i <= s.len(),
            strip_triggers(s@) == strip_triggers(s@.subrange(i as int, s@.len() as int)),
        decreases s.len() - i,
    {
        assert(s@.subrange(i as int, s@.len() as int).drop_first() =~= s@.subrange(
            i + 1,
            s@.len() as int,
        ));
        i += 1;
    }
    crate::text::slice_to_vec(s, i, s.len())
}

fn row_matches_exec(item: &PickerItem, q: &[char]) -> (r: bool)
    ensures
        r == row_matches(item@, q@),
{
    if q.len() == 0 {
        return true;
    }
    let ins = chars_of(item.insert);
    let tail = strip_trigger_chars(ins.as_slice());
    let tail_l = lower_chars(tail.as_slice());
    if starts_with_chars(tail_l.as_slice(), q) {
        return true;
    }
    let lab = chars_of(item.label);
    let lab_l = lower_chars(lab.as_slice());
    if contains_chars(lab_l.as_slice(), q) {
        return true;
    }
    let ins_l = lower_chars(ins.as_slice());
    contains_chars(ins_l.as_slice(), q)
}

/// Filters catalog rows whose insert (without leading trigger) or label match `query`.
pub fn filter_picker_items(catalog: &[PickerItem], query: &str) -> (r: Vec<PickerItem>)
    ensures
        items_view(r@) == rows_matching(items_view(catalog@), lower_seq(query@), catalog@.len() as int),
{
    let qc = chars_of(query);
    let q = lower_chars(qc.as_slice());
    let mut out: Vec<PickerItem> = Vec::new();
    let mut i: usize = 0;
    while i < catalog.len()
        invariant
            i <= catalog.len(),
            q@ == lower_seq(query@),
            items_view(out@) == rows_matching(items_view(catalog@), q@, i as int),
        decreases catalog.len() - i,
    {
        let item = catalog[i];
        proof {
            assert(items_view(catalog@)[i as int] == item@);
        }
        if row_matches_exec(&item, q.as_slice()) {
            let ghost prev = out@;
            out.push(item);
            assert(items_view(out@) =~= items_view(prev).push(item@));
        }
        i += 1;
    }
    out
}

/// Number of occurrences of `c` in `s`.
pub open spec fn count_char(s: Seq<char>, c: char) -> nat
    decreases s.len(),
{
    if s.len() == 0 {
        0
    } else {
        count_char(s.drop_last(), c) + if s.last() == c {
            1nat
        } else {
            0nat
        }
    }
}

/// A colon-payload `@` command already typed (its sub-flow owns the UI).
pub open spec fn at_payload_started(tok: Seq<char>) -> bool {
    starts(tok, "@file:"@) || starts(tok, "@folder:"@) || starts(tok, "@memory:"@) || starts(
        tok,
        "@artifact:"@,
    )
}

/// The `@` picker for token `tok` starting at byte `start`.
pub open spec fn at_picker(start: usize, tok: Seq<char>) -> Option<ActivePickerView> {
    if at_payload_started(tok) {
        None
    } else {
        Some(
            ActivePickerView {
                kind: PickerKind::AtAttachment,
                token_start: start,
                query: tok.drop_first(),
                items: rows_matching(at_catalog(), lower_seq(tok.drop_first()), 6),
            },
        )
    }
}

/// The `/` picker for token `tok` starting at byte `start`.
pub open spec fn slash_picker(start: usize, tok: Seq<char>) -> Option<ActivePickerView> {
    if count_char(tok, '/') > 1 {
        None
    } else {
        Some(
            ActivePickerView {
                kind: PickerKind::SlashAction,
                token_start: start,
                query: tok.drop_first(),
                items: rows_matching(slash_catalog(), lower_seq(tok.drop_first()), 6),
            },
        )
    }
}

/// The picker active for `text` with the cursor at byte `cursor`.
pub open spec fn picker_at(text: Seq<char>, cursor: int) -> Option<ActivePickerView> {
    let tok = cursor_token(text, cursor);
    let start = utf8_len(text.take(cursor_token_start(text, cursor))) as usize;
    if starts(tok, seq!['@']) {
        at_picker(start, tok)
    } else if starts(tok, seq!['/']) {
        slash_picker(start, tok)
    } else {
        None
    }
}

/// Views of an optional picker.
pub open spec fn opt_picker_view(p: Option<ActivePicker>) -> Option<ActivePickerView> {
    match p {
        Some(a) => Some(a@),
        None => None,
    }
}

/// Detects an active `@` or `/` picker at `cursor`, or `None` when inactive.
///
/// Mid-word triggers (e.g. `user@host`, `a/b`) do not open a picker because the
/// whitespace-delimited token does not start with `@` / `/`.
pub fn detect_active_picker(text: &str, cursor: usize) -> (r: Option<ActivePicker>)
    requires
        token_cursor_ok(text@, cursor as int),
    ensures
        opt_picker_view(r) == picker_at(text@, cursor as int),
{
    let (token_start, token) = token_before_cursor(text, cursor);
    proof {
        reveal_strlit("@");
        reveal_strlit("/");
        assert("@"@ =~= seq!['@']);
        assert("/"@ =~= seq!['/']);
    }
    if str_starts_with(token, "@") {
        return detect_at_picker(token_start, token);
    }
    if str_starts_with(token, "/") {
        return detect_slash_picker(token_start, token);
    }
    None
}

fn detect_at_picker(token_start: usize, token: &str) -> (r: Option<ActivePicker>)
    requires
        starts(token@, seq!['@']),
    ensures
        opt_picker_view(r) == at_picker(token_start, token@),
{
    if str_starts_with(token, "@file:") || str_starts_with(token, "@folder:") || str_starts_with(
        token,
        "@memory:",
    ) || str_starts_with(token, "@artifact:") {
        return None;
    }
    let n = token.unicode_len();
    let rest = token.substring_char(1, n);
    let query = owned(rest);
    let cat = at_attachment_catalog();
    assert(items_view(cat@).len() == cat@.len());
    let items = filter_picker_items(cat, query.as_str());
    proof {
        assert(rest@ =~= token@.drop_first());
    }
    Some(ActivePicker { kind: PickerKind::AtAttachment, token_start, query, items })
}

fn count_slashes(s: &[char]) -> (r: usize)
    ensures
        r == count_char(s@, '/'),
{
    let mut i: usize = 0;
    let mut c: usize = 0;
    assert(s@.take(0) =~= Seq::<char>::empty());
    while i < s.len()
        invariant
            i <= s.len(),
            c <= i,
            c == count_char(s@.take(i as int), '/'),
        decreases s.len() - i,
    {
        assert(s@.take(i + 1).drop_last() =~= s@.take(i as int));
        if s[i] == '/' {
            c += 1;
        }
        i += 1;
    }
    assert(s@.take(s.len() as int) =~= s@);
    c
}

fn detect_slash_picker(token_start: usize, token: &str) -> (r: Option<ActivePicker>)
    requires
        starts(token@, seq!['/']),
    ensures
        opt_picker_view(r) == slash_picker(token_start, token@),
{
    let tc = chars_of(token);
    if count_slashes(tc.as_slice()) > 1 {
        return None;
    }
    let n = token.unicode_len();
    let rest = token.substring_char(1, n);
    let query = owned(rest);
    let cat = slash_action_catalog();
    assert(items_view(cat@).len() == cat@.len());
    let items = filter_picker_items(cat, query.as_str());
    proof {
        assert(rest@ =~= token@.drop_first());
    }
    Some(ActivePicker { kind: PickerKind::SlashAction, token_start, query, items })
}

/// Rust's remainder `a % b` (sign of the dividend).
pub open spec fn rem_trunc_spec(a: int, b: int) -> int {
    let m = if b < 0 {
        -b
    } else {
        b
    };
    if a >= 0 {
        a % m
    } else {
        -((-a) % m)
    }
}

fn rem_trunc(a: i32, b: i32) -> (r: i32)
    requires
        b != 0,
    ensures
        r == rem_trunc_spec(a as int, b as int),
{
    let ua: u32 = if a < 0 {
        (-(a as i64)) as u32
    } else {
        a as u32
    };
    let ub: u32 = if b < 0 {
        (-(b as i64)) as u32
    } else {
        b as u32
    };
    let m: u32 = ua % ub;
    proof {
        vstd::arithmetic::div_mod::lemma_mod_bound(ua as int, ub as int);
        vstd::arithmetic::div_mod::lemma_mod_decreases(ua as nat, ub as nat);
    }
    if a < 0 {
        (-(m as i64)) as i32
    } else {
        m as i32
    }
}

/// Picker index after moving `selected` by `delta` within `len` rows, with the
/// `i32` arithmetic of the move (lengths and indices are narrowed to `i32`).
pub open spec fn picker_moved(selected: usize, len: usize, delta: i32) -> usize {
    if len == 0 {
        0
    } else {
        let li = (len as i32) as int;
        let next = (selected as i32) + delta;
        let t = rem_trunc_spec(next, li) + li;
        (rem_trunc_spec(t, li) as i32) as usize
    }
}

/// The move's `i32` arithmetic neither divides by zero nor overflows.
pub open spec fn picker_move_ok(selected: usize, len: usize, delta: i32) -> bool {
    len == 0 || {
        let li = (len as i32) as int;
        let next = (selected as i32) + delta;
        &&& li != 0
        &&& i32::MIN <= next <= i32::MAX
        &&& i32::MIN <= rem_trunc_spec(next, li) + li <= i32::MAX
    }
}

/// Moves the highlighted picker row by `delta`, wrapping within `len`.
pub fn move_picker_selection(selected: usize, len: usize, delta: i32) -> (r: usize)
    requires
        picker_move_ok(selected, len, delta),
    ensures
        r == picker_moved(selected, len, delta),
        0 < len <= i32::MAX && selected < len && -(len as int) <= delta ==> r == (selected + delta
            + len) % (len as int),
{
    if len == 0 {
        return 0;
    }
    let len_i: i32 = #[verifier::truncate] (len as i32);
    let sel_i: i32 = #[verifier::truncate] (selected as i32);
    let next: i32 = sel_i + delta;
    let a = rem_trunc(next, len_i);
    let t: i32 = a + len_i;
    let wrapped = rem_trunc(t, len_i);
    proof {
        if 0 < len <= i32::MAX && selected < len && -(len as int) <= delta {
            assert(len_i == len);
            assert(sel_i == selected);
            let n = len as int;
            let x = selected + delta;
            assert(0 <= x + n);
            if x >= 0 {
                assert(a == x % n);
                vstd::arithmetic::div_mod::lemma_mod_bound(x, n);
                vstd::arithmetic::div_mod::lemma_mod_add_multiples_vanish(x % n, n);
                vstd::arithmetic::div_mod::lemma_mod_twice(x, n);
                vstd::arithmetic::div_mod::lemma_mod_add_multiples_vanish(x, n);
                assert(wrapped == (x % n + n) % n);
                assert(wrapped == (x + n) % n);
            } else {
                assert(a == -((-x) % n));
                assert(-x <= n);
                vstd::arithmetic::div_mod::lemma_mod_bound(-x, n);
                assert(t == a + n);
                if -x == n {
                    vstd::arithmetic::div_mod::lemma_mod_self_0(n);
                    assert(a == 0);
                    assert(wrapped == n % n);
                    assert(x + n == 0);
                    vstd::arithmetic::div_mod::lemma_small_mod(0, n as nat);
                    assert(wrapped == (x + n) % n);
                } else {
                    vstd::arithmetic::div_mod::lemma_small_mod((-x) as nat, n as nat);
                    assert(a == x);
                    assert(t == x + n);
                    assert(0 <= t);
                    vstd::arithmetic::div_mod::lemma_mod_bound(t as int, n);
                    assert(wrapped == (t as int) % n);
                }
            }
            assert(wrapped == (x + n) % n);
            vstd::arithmetic::div_mod::lemma_mod_bound(x + n, n);
            assert(0 <= wrapped);
        }
    }
    #[verifier::truncate] (wrapped as usize)
}

} // verus!
