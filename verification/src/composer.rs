//! Composer text editor state and input handling.
//!
//! Positions (cursor, selection, visual line ranges) are byte offsets into the
//! text, as the editor exposes them; the specifications relate them to char
//! positions through `utf8_len`. Layout is reduced to the number of chars a
//! visual line holds, which the shell derives from its font metrics.

use crate::text::{
    str_eq, byte_offset, char_width, chars_of, lemma_utf8_len_take_le, lemma_utf8_len_take_mono,
    lemma_utf8_len_take_step, string_of, utf8_len, utf8_width,
};
use vstd::prelude::*;

verus! {

/// Cursor-and-selection editor for Ronin's composer input.
pub struct ComposerEditor {
    text: String,
    cursor: usize,
    selection: Option<(usize, usize)>,
    dragging: bool,
    drag_anchor: usize,
    wrap_chars: usize,
    /// Whether the text cursor is currently visible (for blinking).
    pub cursor_visible: bool,
}

/// Mathematical view of a [`ComposerEditor`].
pub struct EditorView {
    /// Text.
    pub text: Seq<char>,
    /// Cursor byte offset.
    pub cursor: usize,
    /// Selected byte range.
    pub selection: Option<(usize, usize)>,
    /// Mouse drag in progress.
    pub dragging: bool,
    /// Byte offset where the drag started.
    pub drag_anchor: usize,
    /// Chars per visual line.
    pub wrap: usize,
    /// Caret blink state.
    pub cursor_visible: bool,
}

impl View for ComposerEditor {
    type V = EditorView;

    closed spec fn view(&self) -> EditorView {
        EditorView {
            text: self.text@,
            cursor: self.cursor,
            selection: self.selection,
            dragging: self.dragging,
            drag_anchor: self.drag_anchor,
            wrap: self.wrap_chars,
            cursor_visible: self.cursor_visible,
        }
    }
}

/// Byte offset of char index `k`.
pub open spec fn off(t: Seq<char>, k: int) -> int {
    utf8_len(t.take(k)) as int
}

/// Byte length of the text.
pub open spec fn blen(t: Seq<char>) -> int {
    utf8_len(t) as int
}

/// Char index reached from `k` by advancing while the next char still ends at
/// or before byte `b`.
pub open spec fn floor_from(t: Seq<char>, b: int, k: int) -> int
    decreases t.len() - k,
{
    if 0 <= k < t.len() && off(t, k + 1) <= b {
        floor_from(t, b, k + 1)
    } else {
        k
    }
}

/// The last char boundary at or before byte `b`, as a char index.
pub open spec fn floor_idx(t: Seq<char>, b: int) -> int {
    floor_from(t, b, 0)
}

/// Char index reached from `k` by advancing while the boundary lies before byte `b`.
pub open spec fn ceil_from(t: Seq<char>, b: int, k: int) -> int
    decreases t.len() - k,
{
    if 0 <= k < t.len() && off(t, k) < b {
        ceil_from(t, b, k + 1)
    } else {
        k
    }
}

/// The first char boundary at or after byte `b`, as a char index.
pub open spec fn ceil_idx(t: Seq<char>, b: int) -> int {
    ceil_from(t, b, 0)
}

/// Byte `b` lies on a char boundary of `t`.
pub open spec fn at_boundary(t: Seq<char>, b: int) -> bool {
    0 <= b <= blen(t) && off(t, floor_idx(t, b)) == b
}

/// Well-formed editor: the text fits an allocation, the cursor lies within it,
/// and a visual line holds at least one char.
pub open spec fn wf(v: EditorView) -> bool {
    &&& blen(v.text) <= isize::MAX
    &&& v.cursor <= blen(v.text)
    &&& v.wrap >= 1
}

proof fn lemma_off_bounds(t: Seq<char>, k: int)
    requires
        0 <= k <= t.len(),
    ensures
        0 <= off(t, k) <= blen(t),
        off(t, k) <= 4 * k,
{
    lemma_utf8_len_take_le(t, k);
    lemma_off_le_4k(t, k);
}

proof fn lemma_off_le_4k(t: Seq<char>, k: int)
    requires
        0 <= k <= t.len(),
    ensures
        off(t, k) <= 4 * k,
    decreases k,
{
    if k > 0 {
        lemma_utf8_len_take_step(t, k - 1);
        lemma_off_le_4k(t, k - 1);
    } else {
        assert(t.take(0) =~= Seq::<char>::empty());
    }
}

proof fn lemma_floor_from(t: Seq<char>, b: int, k: int)
    requires
        0 <= k <= t.len(),
    ensures
        k <= floor_from(t, b, k) <= t.len(),
        floor_from(t, b, k) > k ==> off(t, floor_from(t, b, k)) <= b,
    decreases t.len() - k,
{
    if 0 <= k < t.len() && off(t, k + 1) <= b {
        lemma_floor_from(t, b, k + 1);
    }
}

proof fn lemma_ceil_from(t: Seq<char>, b: int, k: int)
    requires
        0 <= k <= t.len(),
    ensures
        k <= ceil_from(t, b, k) <= t.len(),
    decreases t.len() - k,
{
    if 0 <= k < t.len() && off(t, k) < b {
        lemma_ceil_from(t, b, k + 1);
    }
}

/// Char index and byte offset of the last boundary at or before `b`.
fn floor_index(cs: &[char], b: usize) -> (r: (usize, usize))
    requires
        blen(cs@) <= isize::MAX,
    ensures
        r.0 == floor_idx(cs@, b as int),
        r.1 == off(cs@, r.0 as int),
        r.0 <= cs.len(),
        r.1 <= b,
{
    let mut k: usize = 0;
    let mut o: usize = 0;
    assert(cs@.take(0) =~= Seq::<char>::empty());
    proof {
        lemma_floor_from(cs@, b as int, 0);
    }
    loop
        invariant
            k <= cs.len(),
            blen(cs@) <= isize::MAX,
            o == off(cs@, k as int),
            o <= b,
            floor_idx(cs@, b as int) == floor_from(cs@, b as int, k as int),
        decreases cs.len() - k,
    {
        if k >= cs.len() {
            return (k, o);
        }
        proof {
            lemma_utf8_len_take_step(cs@, k as int);
            lemma_off_bounds(cs@, k + 1);
        }
        let next = o + char_width(cs[k]) as usize;
        if next > b {
            return (k, o);
        }
        k += 1;
        o = next;
    }
}

/// Char index and byte offset of the first boundary at or after `b`.
fn ceil_index(cs: &[char], b: usize) -> (r: (usize, usize))
    requires
        blen(cs@) <= isize::MAX,
    ensures
        r.0 == ceil_idx(cs@, b as int),
        r.1 == off(cs@, r.0 as int),
        r.0 <= cs.len(),
{
    let mut k: usize = 0;
    let mut o: usize = 0;
    assert(cs@.take(0) =~= Seq::<char>::empty());
    loop
        invariant
            k <= cs.len(),
            blen(cs@) <= isize::MAX,
            o == off(cs@, k as int),
            ceil_idx(cs@, b as int) == ceil_from(cs@, b as int, k as int),
        decreases cs.len() - k,
    {
        if k >= cs.len() || o >= b {
            return (k, o);
        }
        proof {
            lemma_utf8_len_take_step(cs@, k as int);
            lemma_off_bounds(cs@, k + 1);
        }
        o = o + char_width(cs[k]) as usize;
        k += 1;
    }
}

/// Byte length of `cs`.
fn byte_len(cs: &[char]) -> (r: usize)
    requires
        blen(cs@) <= isize::MAX,
    ensures
        r == blen(cs@),
{
    let b = byte_offset(cs, cs.len());
    assert(cs@.take(cs@.len() as int) =~= cs@);
    b as usize
}

/// Byte offset of char index `k` of `cs`.
fn offset_of(cs: &[char], k: usize) -> (r: usize)
    requires
        k <= cs.len(),
        blen(cs@) <= isize::MAX,
    ensures
        r == off(cs@, k as int),
{
    proof {
        lemma_off_bounds(cs@, k as int);
    }
    byte_offset(cs, k) as usize
}

/// Char index reached from `k` by moving back over spaces.
pub open spec fn skip_spaces_back(t: Seq<char>, k: int) -> int
    decreases k,
{
    if 0 < k <= t.len() && t[k - 1] == ' ' {
        skip_spaces_back(t, k - 1)
    } else {
        k
    }
}

/// Char index reached from `k` by moving back over non-spaces.
pub open spec fn skip_word_back(t: Seq<char>, k: int) -> int
    decreases k,
{
    if 0 < k <= t.len() && t[k - 1] != ' ' {
        skip_word_back(t, k - 1)
    } else {
        k
    }
}

/// Char index reached from `k` by moving forward over non-spaces.
pub open spec fn skip_word_fwd(t: Seq<char>, k: int) -> int
    decreases t.len() - k,
{
    if 0 <= k < t.len() && t[k] != ' ' {
        skip_word_fwd(t, k + 1)
    } else {
        k
    }
}

/// Char index reached from `k` by moving forward over spaces.
pub open spec fn skip_spaces_fwd(t: Seq<char>, k: int) -> int
    decreases t.len() - k,
{
    if 0 <= k < t.len() && t[k] == ' ' {
        skip_spaces_fwd(t, k + 1)
    } else {
        k
    }
}

/// Start of the word before byte `from`: back over spaces, then over the
/// word. A position inside a multi-byte char counts from that char's end,
/// which is where a scan over the bytes lands as well.
pub open spec fn prev_word(t: Seq<char>, from: int) -> int {
    let b = if from < blen(t) {
        from
    } else {
        blen(t)
    };
    off(t, skip_word_back(t, skip_spaces_back(t, ceil_idx(t, b))))
}

/// Start of the word after byte `from`: forward over the word, then over
/// spaces. Positions past the end are kept.
pub open spec fn next_word(t: Seq<char>, from: int) -> int {
    if from > blen(t) {
        from
    } else {
        off(t, skip_spaces_fwd(t, skip_word_fwd(t, floor_idx(t, from))))
    }
}

proof fn lemma_skip_bounds_back_spaces(t: Seq<char>, k: int)
    requires
        0 <= k <= t.len(),
    ensures
        0 <= skip_spaces_back(t, k) <= k,
    decreases k,
{
    if 0 < k && t[k - 1] == ' ' {
        lemma_skip_bounds_back_spaces(t, k - 1);
    }
}

proof fn lemma_skip_bounds_back_word(t: Seq<char>, k: int)
    requires
        0 <= k <= t.len(),
    ensures
        0 <= skip_word_back(t, k) <= k,
    decreases k,
{
    if 0 < k && t[k - 1] != ' ' {
        lemma_skip_bounds_back_word(t, k - 1);
    }
}

proof fn lemma_skip_bounds_fwd_word(t: Seq<char>, k: int)
    requires
        0 <= k <= t.len(),
    ensures
        k <= skip_word_fwd(t, k) <= t.len(),
    decreases t.len() - k,
{
    if k < t.len() && t[k] != ' ' {
        lemma_skip_bounds_fwd_word(t, k + 1);
    }
}

proof fn lemma_skip_bounds_fwd_spaces(t: Seq<char>, k: int)
    requires
        0 <= k <= t.len(),
    ensures
        k <= skip_spaces_fwd(t, k) <= t.len(),
    decreases t.len() - k,
{
    if k < t.len() && t[k] == ' ' {
        lemma_skip_bounds_fwd_spaces(t, k + 1);
    }
}

fn prev_word_byte_of(cs: &[char], from: usize) -> (r: usize)
    requires
        blen(cs@) <= isize::MAX,
    ensures
        r == prev_word(cs@, from as int),
        r <= blen(cs@),
        r <= from,
{
    let len = byte_len(cs);
    let b = if from < len {
        from
    } else {
        len
    };
    let (k0, _) = ceil_index(cs, b);
    proof {
        lemma_ceil_from(cs@, b as int, 0);
    }
    let mut k = k0;
    while k > 0 && cs[k - 1] == ' '
        invariant
            k <= k0 <= cs.len(),
            skip_spaces_back(cs@, k0 as int) == skip_spaces_back(cs@, k as int),
        decreases k,
    {
        k -= 1;
    }
    let k1 = k;
    while k > 0 && cs[k - 1] != ' '
        invariant
            k <= k1 <= cs.len(),
            skip_word_back(cs@, k1 as int) == skip_word_back(cs@, k as int),
        decreases k,
    {
        k -= 1;
    }
    proof {
        if k0 > 0 {
            assert(k < k0);
            lemma_before_ceil(cs@, b as int, 0, k as int);
        } else {
            assert(cs@.take(0) =~= Seq::<char>::empty());
        }
    }
    offset_of(cs, k)
}

proof fn lemma_before_ceil(t: Seq<char>, b: int, k: int, j: int)
    requires
        0 <= k <= j < ceil_from(t, b, k),
        ceil_from(t, b, k) <= t.len(),
    ensures
        off(t, j) < b,
    decreases t.len() - k,
{
    if 0 <= k < t.len() && off(t, k) < b {
        if j > k {
            lemma_before_ceil(t, b, k + 1, j);
        }
    }
}

fn next_word_byte_of(cs: &[char], from: usize) -> (r: usize)
    requires
        blen(cs@) <= isize::MAX,
    ensures
        r == next_word(cs@, from as int),
        from <= blen(cs@) ==> r <= blen(cs@),
{
    let len = byte_len(cs);
    if from > len {
        return from;
    }
    let (k0, _) = floor_index(cs, from);
    let mut k = k0;
    while k < cs.len() && cs[k] != ' '
        invariant
            k0 <= k <= cs.len(),
            skip_word_fwd(cs@, k0 as int) == skip_word_fwd(cs@, k as int),
        decreases cs.len() - k,
    {
        k += 1;
    }
    let k1 = k;
    while k < cs.len() && cs[k] == ' '
        invariant
            k1 <= k <= cs.len(),
            skip_spaces_fwd(cs@, k1 as int) == skip_spaces_fwd(cs@, k as int),
        decreases cs.len() - k,
    {
        k += 1;
    }
    proof {
        lemma_off_bounds(cs@, k as int);
    }
    offset_of(cs, k)
}

/// `a` or `b`, whichever is smaller.
pub open spec fn min_of(a: int, b: int) -> int {
    if a < b {
        a
    } else {
        b
    }
}

/// Cursor moved back to the last char boundary at or before it.
pub open spec fn clamped(v: EditorView) -> EditorView {
    EditorView {
        cursor: off(v.text, floor_idx(v.text, min_of(v.cursor as int, blen(v.text)))) as usize,
        ..v
    }
}

/// Selection between `start` and `end` (clamped to the text), none when empty.
pub open spec fn range_of(start: int, end: int, len: int) -> Option<(usize, usize)> {
    let s = min_of(start, len);
    let e = min_of(end, len);
    if s == e {
        None
    } else {
        Some((min_of(s, e) as usize, (if s < e {
            e
        } else {
            s
        }) as usize))
    }
}

/// Fixed end of the selection (the cursor without one).
pub open spec fn anchor_of(v: EditorView) -> usize {
    match v.selection {
        Some((s, _)) => s,
        None => v.cursor,
    }
}

/// Moving end of the selection (the cursor without one).
pub open spec fn sel_cursor_of(v: EditorView) -> usize {
    match v.selection {
        Some((_, e)) => e,
        None => v.cursor,
    }
}

/// The selection, if any, spans char boundaries in order within the text.
pub open spec fn sel_ok(v: EditorView) -> bool {
    match v.selection {
        Some((s, e)) => s <= e && at_boundary(v.text, s as int) && at_boundary(v.text, e as int),
        None => true,
    }
}

/// Text with chars `[a, b)` replaced by `ins`.
pub open spec fn splice(t: Seq<char>, a: int, b: int, ins: Seq<char>) -> Seq<char> {
    t.take(a) + ins + t.skip(b)
}

/// State after deleting the selection (unchanged without one).
pub open spec fn deleted_sel(v: EditorView) -> EditorView {
    match v.selection {
        Some((s, e)) => EditorView {
            text: splice(v.text, floor_idx(v.text, s as int), floor_idx(v.text, e as int), Seq::empty()),
            cursor: s,
            selection: None,
            ..v
        },
        None => v,
    }
}

/// State after inserting `ins` at the cursor (selection first deleted).
pub open spec fn inserted(v: EditorView, ins: Seq<char>) -> EditorView {
    let w = clamped(deleted_sel(v));
    let k = floor_idx(w.text, w.cursor as int);
    EditorView {
        text: splice(w.text, k, k, ins),
        cursor: (w.cursor + blen(ins)) as usize,
        ..w
    }
}

/// State after Backspace.
pub open spec fn deleted_before(v: EditorView) -> EditorView {
    if v.selection is Some {
        deleted_sel(v)
    } else {
        let w = clamped(v);
        let k = floor_idx(w.text, w.cursor as int);
        if w.cursor == 0 {
            w
        } else {
            EditorView { text: splice(w.text, k - 1, k, Seq::empty()), cursor: off(w.text, k - 1) as usize, ..w }
        }
    }
}

/// State after Delete.
pub open spec fn deleted_at(v: EditorView) -> EditorView {
    if v.selection is Some {
        deleted_sel(v)
    } else {
        let w = clamped(v);
        let k = floor_idx(w.text, w.cursor as int);
        if w.cursor >= blen(w.text) {
            w
        } else {
            EditorView { text: splice(w.text, k, k + 1, Seq::empty()), ..w }
        }
    }
}

/// State after Ctrl+Backspace.
pub open spec fn deleted_prev_word(v: EditorView) -> EditorView {
    if v.selection is Some {
        deleted_sel(v)
    } else {
        let target = prev_word(v.text, v.cursor as int);
        EditorView {
            text: splice(v.text, floor_idx(v.text, target), floor_idx(v.text, v.cursor as int), Seq::empty()),
            cursor: target as usize,
            ..v
        }
    }
}

/// State after Left.
pub open spec fn moved_left(v: EditorView) -> EditorView {
    let w = clamped(v);
    let k = floor_idx(w.text, w.cursor as int);
    if w.cursor == 0 {
        w
    } else {
        EditorView { cursor: off(w.text, k - 1) as usize, ..w }
    }
}

/// State after Right.
pub open spec fn moved_right(v: EditorView) -> EditorView {
    let w = clamped(v);
    let k = floor_idx(w.text, w.cursor as int);
    if w.cursor >= blen(w.text) {
        w
    } else {
        EditorView { cursor: off(w.text, k + 1) as usize, ..w }
    }
}

/// State after Ctrl+Left.
pub open spec fn moved_word_left(v: EditorView) -> EditorView {
    let w = clamped(v);
    EditorView { cursor: prev_word(w.text, w.cursor as int) as usize, ..w }
}

/// State after Ctrl+Right.
pub open spec fn moved_word_right(v: EditorView) -> EditorView {
    let w = clamped(v);
    EditorView { cursor: next_word(w.text, w.cursor as int) as usize, ..w }
}

/// State after Shift+Left.
pub open spec fn extended_left(v: EditorView) -> EditorView {
    let cur = sel_cursor_of(v);
    if cur == 0 {
        v
    } else {
        let new = off(v.text, floor_idx(v.text, cur as int) - 1);
        EditorView {
            cursor: new as usize,
            selection: range_of(anchor_of(v) as int, new, blen(v.text)),
            ..v
        }
    }
}

/// State after Shift+Right.
pub open spec fn extended_right(v: EditorView) -> EditorView {
    let cur = sel_cursor_of(v);
    if cur >= blen(v.text) {
        v
    } else {
        let new = off(v.text, floor_idx(v.text, cur as int) + 1);
        EditorView {
            cursor: new as usize,
            selection: range_of(anchor_of(v) as int, new, blen(v.text)),
            ..v
        }
    }
}

/// State after Ctrl+Shift+Left.
pub open spec fn extended_word_left(v: EditorView) -> EditorView {
    let new = prev_word(v.text, anchor_of(v) as int);
    EditorView { selection: range_of(new, v.cursor as int, blen(v.text)), ..v }
}

/// State after Ctrl+Shift+Right.
pub open spec fn extended_word_right(v: EditorView) -> EditorView {
    if v.cursor < blen(v.text) {
        let new = next_word(v.text, v.cursor as int);
        EditorView {
            cursor: new as usize,
            selection: range_of(anchor_of(v) as int, new, blen(v.text)),
            ..v
        }
    } else {
        v
    }
}

impl Default for ComposerEditor {
    fn default() -> (s: Self)
        ensures
            s@ == empty_editor(),
    {
        Self::new()
    }
}

/// A fresh editor: empty text, cursor at the start, 50 chars per visual line.
pub open spec fn empty_editor() -> EditorView {
    EditorView {
        text: Seq::empty(),
        cursor: 0,
        selection: None,
        dragging: false,
        drag_anchor: 0,
        wrap: 50,
        cursor_visible: true,
    }
}

impl ComposerEditor {
    /// Creates an empty composer editor.
    pub fn new() -> (s: Self)
        ensures
            s@ == empty_editor(),
            wf(s@),
    {
        let s = Self {
            text: String::new(),
            cursor: 0,
            selection: None,
            dragging: false,
            drag_anchor: 0,
            wrap_chars: 50,
            cursor_visible: true,
        };
        assert(blen(s.text@) == 0);
        s
    }

    /// Sets how many chars a visual line holds (at least one).
    pub fn set_wrap_chars(&mut self, chars: usize)
        ensures
            final(self)@ == (EditorView {
                wrap: (if chars < 1 {
                    1
                } else {
                    chars
                }),
                ..old(self)@
            }),
    {
        self.wrap_chars = if chars < 1 {
            1
        } else {
            chars
        };
    }

    /// Returns the current text.
    pub fn text(&self) -> (r: &str)
        ensures
            r@ == self@.text,
    {
        self.text.as_str()
    }

    fn text_chars(&self) -> (r: Vec<char>)
        ensures
            r@ == self@.text,
    {
        chars_of(self.text.as_str())
    }

    /// Replaces the text, clamping the cursor if necessary.
    pub fn set_text(&mut self, text: String)
        requires
            wf(old(self)@),
            blen(text@) <= isize::MAX,
        ensures
            wf(final(self)@),
            final(self)@ == (EditorView {
                text: text@,
                cursor: min_of(old(self)@.cursor as int, blen(text@)) as usize,
                ..old(self)@
            }),
    {
        let cs = chars_of(text.as_str());
        let len = byte_len(cs.as_slice());
        if len < self.cursor {
            self.cursor = len;
        }
        self.text = text;
    }

    /// Takes the text, resetting cursor and selection.
    pub fn take_text(&mut self) -> (r: String)
        requires
            wf(old(self)@),
        ensures
            r@ == old(self)@.text,
            wf(final(self)@),
            final(self)@ == (EditorView {
                text: Seq::empty(),
                cursor: 0,
                selection: None,
                ..old(self)@
            }),
    {
        self.cursor = 0;
        self.selection = None;
        let mut t = String::new();
        std::mem::swap(&mut t, &mut self.text);
        assert(blen(self.text@) == 0);
        t
    }

    /// Returns the current byte cursor position.
    pub fn cursor(&self) -> (r: usize)
        requires
            wf(self@),
        ensures
            r == min_of(self@.cursor as int, blen(self@.text)),
    {
        let cs = self.text_chars();
        let len = byte_len(cs.as_slice());
        if self.cursor < len {
            self.cursor
        } else {
            len
        }
    }

    /// Returns the current selection range if any.
    pub fn selection(&self) -> (r: Option<(usize, usize)>)
        ensures
            r == self@.selection,
    {
        self.selection
    }

    fn clamp_cursor(&mut self)
        requires
            wf(old(self)@),
        ensures
            wf(final(self)@),
            final(self)@ == clamped(old(self)@),
    {
        let cs = self.text_chars();
        let len = byte_len(cs.as_slice());
        let c = if self.cursor < len {
            self.cursor
        } else {
            len
        };
        let (_, o) = floor_index(cs.as_slice(), c);
        self.cursor = o;
    }

    fn clear_selection(&mut self)
        ensures
            final(self)@ == (EditorView { selection: None, ..old(self)@ }),
    {
        self.selection = None;
    }

    fn set_selection_range(&mut self, start: usize, end: usize)
        requires
            wf(old(self)@),
        ensures
            final(self)@ == (EditorView {
                selection: range_of(start as int, end as int, blen(old(self)@.text)),
                ..old(self)@
            }),
    {
        let cs = self.text_chars();
        let len = byte_len(cs.as_slice());
        let s = if start < len {
            start
        } else {
            len
        };
        let e = if end < len {
            end
        } else {
            len
        };
        if s == e {
            self.selection = None;
        } else {
            self.selection = Some(
                (
                    if s < e {
                        s
                    } else {
                        e
                    },
                    if s < e {
                        e
                    } else {
                        s
                    },
                ),
            );
        }
    }

    fn selection_anchor(&self) -> (r: usize)
        ensures
            r == anchor_of(self@),
    {
        match self.selection {
            Some((s, _)) => s,
            None => self.cursor,
        }
    }

    fn selection_cursor(&self) -> (r: usize)
        ensures
            r == sel_cursor_of(self@),
    {
        match self.selection {
            Some((_, e)) => e,
            None => self.cursor,
        }
    }

    /// Returns the currently selected text.
    pub fn selected_text(&self) -> (r: Option<&str>)
        requires
            wf(self@),
            sel_ok(self@),
        ensures
            match self@.selection {
                Some((s, e)) => r is Some && r->0@ == self@.text.subrange(
                    floor_idx(self@.text, s as int),
                    floor_idx(self@.text, e as int),
                ),
                None => r is None,
            },
    {
        match self.selection {
            Some((s, e)) => {
                let cs = self.text_chars();
                let (a, _) = floor_index(cs.as_slice(), s);
                let (b, _) = floor_index(cs.as_slice(), e);
                proof {
                    lemma_floor_mono(self@.text, s as int, e as int);
                }
                Some(self.text.as_str().substring_char(a, b))
            },
            None => None,
        }
    }

    fn replace_chars(&mut self, cs: &Vec<char>, a: usize, b: usize, ins: &[char])
        requires
            a <= b <= cs.len(),
            cs@ == old(self)@.text,
            blen(cs@) + blen(ins@) <= isize::MAX,
        ensures
            final(self)@ == (EditorView { text: splice(cs@, a as int, b as int, ins@), ..old(self)@ }),
            blen(final(self)@.text) == blen(cs@) + blen(ins@) - (off(cs@, b as int) - off(cs@, a as int)),
            off(final(self)@.text, a as int + ins@.len()) == off(cs@, a as int) + blen(ins@),
    {
        let mut out: Vec<char> = Vec::new();
        let mut i: usize = 0;
        while i < a
            invariant
                i <= a <= cs.len(),
                out@ == cs@.take(i as int),
            decreases a - i,
        {
            out.push(cs[i]);
            assert(cs@.take(i as int).push(cs@[i as int]) =~= cs@.take(i + 1));
            i += 1;
        }
        let mut j: usize = 0;
        while j < ins.len()
            invariant
                j <= ins.len(),
                out@ == cs@.take(a as int) + ins@.take(j as int),
            decreases ins.len() - j,
        {
            out.push(ins[j]);
            assert(cs@.take(a as int) + ins@.take(j as int) + seq![ins@[j as int]] =~= cs@.take(
                a as int,
            ) + ins@.take(j + 1));
            j += 1;
        }
        let mut k: usize = b;
        assert(ins@.take(ins@.len() as int) =~= ins@);
        while k < cs.len()
            invariant
                b <= k <= cs.len(),
                out@ == cs@.take(a as int) + ins@ + cs@.subrange(b as int, k as int),
            decreases cs.len() - k,
        {
            out.push(cs[k]);
            assert(cs@.take(a as int) + ins@ + cs@.subrange(b as int, k as int) + seq![cs@[k as int]]
                =~= cs@.take(a as int) + ins@ + cs@.subrange(b as int, k + 1));
            k += 1;
        }
        proof {
            assert(cs@.subrange(b as int, cs@.len() as int) =~= cs@.skip(b as int));
            lemma_splice_len(cs@, a as int, b as int, ins@);
        }
        self.text = string_of(out.as_slice());
    }

    fn delete_selection(&mut self)
        requires
            wf(old(self)@),
            sel_ok(old(self)@),
        ensures
            wf(final(self)@),
            final(self)@ == deleted_sel(old(self)@),
    {
        match self.selection {
            Some((s, e)) => {
                let cs = self.text_chars();
                let (a, _) = floor_index(cs.as_slice(), s);
                let (b, _) = floor_index(cs.as_slice(), e);
                proof {
                    lemma_floor_mono(self@.text, s as int, e as int);
                    lemma_off_bounds(cs@, a as int);
                    lemma_off_bounds(cs@, b as int);
                }
                let empty: Vec<char> = Vec::new();
                assert(blen(empty@) == 0);
                self.replace_chars(&cs, a, b, empty.as_slice());
                self.selection = None;
                self.cursor = s;
                proof {
                    assert(cs@.take(a as int) =~= cs@.take(a as int) + Seq::<char>::empty());
                }
            },
            None => {},
        }
    }
}

proof fn lemma_floor_mono(t: Seq<char>, x: int, y: int)
    requires
        x <= y,
    ensures
        floor_idx(t, x) <= floor_idx(t, y),
        0 <= floor_idx(t, x) <= t.len(),
        0 <= floor_idx(t, y) <= t.len(),
{
    lemma_floor_from(t, x, 0);
    lemma_floor_from(t, y, 0);
    lemma_floor_from_mono(t, x, y, 0);
}

proof fn lemma_floor_from_mono(t: Seq<char>, x: int, y: int, k: int)
    requires
        x <= y,
        0 <= k <= t.len(),
    ensures
        floor_from(t, x, k) <= floor_from(t, y, k),
    decreases t.len() - k,
{
    lemma_floor_from(t, y, k);
    if 0 <= k < t.len() && off(t, k + 1) <= x {
        lemma_floor_from_mono(t, x, y, k + 1);
    }
}

proof fn lemma_splice_len(t: Seq<char>, a: int, b: int, ins: Seq<char>)
    requires
        0 <= a <= b <= t.len(),
    ensures
        blen(splice(t, a, b, ins)) == blen(t) + blen(ins) - (off(t, b) - off(t, a)),
        off(splice(t, a, b, ins), a + ins.len()) == off(t, a) + blen(ins),
{
    let l = t.take(a);
    let m = t.subrange(a, b);
    let r = t.skip(b);
    assert(t =~= l + m + r);
    assert(t.take(b) =~= l + m);
    crate::text::lemma_utf8_len_concat(l + m, r);
    crate::text::lemma_utf8_len_concat(l, m);
    crate::text::lemma_utf8_len_concat(l + ins, r);
    crate::text::lemma_utf8_len_concat(l, ins);
    assert(splice(t, a, b, ins).take(a + ins.len()) =~= l + ins);
}

impl ComposerEditor {
    fn insert_chars(&mut self, ins: &[char])
        requires
            wf(old(self)@),
            sel_ok(old(self)@),
            blen(old(self)@.text) + blen(ins@) <= isize::MAX,
        ensures
            wf(final(self)@),
            final(self)@ == inserted(old(self)@, ins@),
    {
        let ghost v0 = self@;
        self.delete_selection();
        proof {
            lemma_splice_len_le(v0);
        }
        let ghost pre = self@;
        self.clamp_cursor();
        proof {
            lemma_clamped_boundary(pre);
        }
        let cs = self.text_chars();
        let (k, o) = floor_index(cs.as_slice(), self.cursor);
        proof {
            lemma_off_bounds(cs@, k as int);
        }
        let wi = byte_len(ins);
        self.replace_chars(&cs, k, k, ins);
        self.cursor = o + wi;
        proof {
            assert(blen(self@.text) == blen(cs@) + blen(ins@));
        }
    }

    /// Inserts a single character at the current cursor position.
    pub fn insert_char(&mut self, ch: char)
        requires
            wf(old(self)@),
            sel_ok(old(self)@),
            blen(old(self)@.text) + 4 <= isize::MAX,
        ensures
            wf(final(self)@),
            final(self)@ == inserted(old(self)@, seq![ch]),
    {
        let v = vec![ch];
        proof {
            assert(v@ =~= seq![ch]);
            assert(seq![ch].drop_last() =~= Seq::<char>::empty());
            assert(utf8_len(Seq::<char>::empty()) == 0);
            assert(utf8_len(seq![ch]) == utf8_width(ch));
            assert(blen(v@) <= 4);
        }
        self.insert_chars(v.as_slice());
    }

    /// Inserts a string at the current cursor position.
    pub fn insert_str(&mut self, s: &str)
        requires
            wf(old(self)@),
            sel_ok(old(self)@),
            blen(old(self)@.text) + blen(s@) <= isize::MAX,
        ensures
            wf(final(self)@),
            final(self)@ == inserted(old(self)@, s@),
    {
        let v = chars_of(s);
        self.insert_chars(v.as_slice());
    }

    /// Deletes one character before the cursor (or the selection).
    pub fn delete_before_cursor(&mut self)
        requires
            wf(old(self)@),
            sel_ok(old(self)@),
        ensures
            wf(final(self)@),
            final(self)@ == deleted_before(old(self)@),
    {
        if self.selection.is_some() {
            self.delete_selection();
            return;
        }
        let ghost pre = self@;
        self.clamp_cursor();
        proof {
            lemma_clamped_boundary(pre);
        }
        if self.cursor == 0 {
            return;
        }
        let cs = self.text_chars();
        let (k, o) = floor_index(cs.as_slice(), self.cursor);
        proof {
            if k == 0 {
                assert(cs@.take(0) =~= Seq::<char>::empty());
            }
            lemma_off_bounds(cs@, k as int);
            lemma_off_bounds(cs@, k - 1);
        }
        let prev = offset_of(cs.as_slice(), k - 1);
        let empty: Vec<char> = Vec::new();
        assert(blen(empty@) == 0);
        self.replace_chars(&cs, k - 1, k, empty.as_slice());
        self.cursor = prev;
        proof {
            lemma_utf8_len_take_mono(cs@, k - 1, k as int);
        }
    }

    /// Deletes one character after the cursor (or the selection).
    pub fn delete_at_cursor(&mut self)
        requires
            wf(old(self)@),
            sel_ok(old(self)@),
        ensures
            wf(final(self)@),
            final(self)@ == deleted_at(old(self)@),
    {
        if self.selection.is_some() {
            self.delete_selection();
            return;
        }
        let ghost pre = self@;
        self.clamp_cursor();
        proof {
            lemma_clamped_boundary(pre);
        }
        let cs = self.text_chars();
        let len = byte_len(cs.as_slice());
        if self.cursor >= len {
            return;
        }
        let (k, o) = floor_index(cs.as_slice(), self.cursor);
        proof {
            if k == cs.len() {
                assert(cs@.take(cs@.len() as int) =~= cs@);
            }
            lemma_off_bounds(cs@, k as int);
            lemma_off_bounds(cs@, k + 1);
            lemma_utf8_len_take_mono(cs@, k as int, k + 1);
        }
        let empty: Vec<char> = Vec::new();
        assert(blen(empty@) == 0);
        self.replace_chars(&cs, k, k + 1, empty.as_slice());
    }

    /// Deletes the word preceding the cursor (or the selection).
    pub fn delete_prev_word(&mut self)
        requires
            wf(old(self)@),
            sel_ok(old(self)@),
            old(self)@.selection is None ==> at_boundary(old(self)@.text, old(self)@.cursor as int),
        ensures
            wf(final(self)@),
            final(self)@ == deleted_prev_word(old(self)@),
    {
        if self.selection.is_some() {
            self.delete_selection();
            return;
        }
        let cs = self.text_chars();
        let target = prev_word_byte_of(cs.as_slice(), self.cursor);
        let (a, oa) = floor_index(cs.as_slice(), target);
        let (b, ob) = floor_index(cs.as_slice(), self.cursor);
        proof {
            lemma_floor_mono(cs@, target as int, self.cursor as int);
            lemma_prev_word_boundary(cs@, self.cursor as int);
            lemma_off_bounds(cs@, a as int);
            lemma_off_bounds(cs@, b as int);
        }
        let empty: Vec<char> = Vec::new();
        assert(blen(empty@) == 0);
        self.replace_chars(&cs, a, b, empty.as_slice());
        self.cursor = target;
    }

    /// Moves the cursor one character left.
    pub fn move_left(&mut self)
        requires
            wf(old(self)@),
        ensures
            wf(final(self)@),
            final(self)@ == moved_left(old(self)@),
    {
        let ghost pre = self@;
        self.clamp_cursor();
        proof {
            lemma_clamped_boundary(pre);
        }
        if self.cursor == 0 {
            return;
        }
        let cs = self.text_chars();
        let (k, o) = floor_index(cs.as_slice(), self.cursor);
        proof {
            if k == 0 {
                assert(cs@.take(0) =~= Seq::<char>::empty());
            }
            lemma_off_bounds(cs@, k - 1);
        }
        self.cursor = offset_of(cs.as_slice(), k - 1);
    }

    /// Moves the cursor one character right.
    pub fn move_right(&mut self)
        requires
            wf(old(self)@),
        ensures
            wf(final(self)@),
            final(self)@ == moved_right(old(self)@),
    {
        let ghost pre = self@;
        self.clamp_cursor();
        proof {
            lemma_clamped_boundary(pre);
        }
        let cs = self.text_chars();
        let len = byte_len(cs.as_slice());
        if self.cursor >= len {
            return;
        }
        let (k, o) = floor_index(cs.as_slice(), self.cursor);
        proof {
            if k == cs.len() {
                assert(cs@.take(cs@.len() as int) =~= cs@);
            }
            lemma_off_bounds(cs@, k + 1);
        }
        self.cursor = offset_of(cs.as_slice(), k + 1);
    }

    /// Moves the cursor one word left.
    pub fn move_word_left(&mut self)
        requires
            wf(old(self)@),
        ensures
            wf(final(self)@),
            final(self)@ == moved_word_left(old(self)@),
    {
        let ghost pre = self@;
        self.clamp_cursor();
        proof {
            lemma_clamped_boundary(pre);
        }
        let cs = self.text_chars();
        self.cursor = prev_word_byte_of(cs.as_slice(), self.cursor);
    }

    /// Moves the cursor one word right.
    pub fn move_word_right(&mut self)
        requires
            wf(old(self)@),
        ensures
            wf(final(self)@),
            final(self)@ == moved_word_right(old(self)@),
    {
        let ghost pre = self@;
        self.clamp_cursor();
        proof {
            lemma_clamped_boundary(pre);
        }
        let cs = self.text_chars();
        self.cursor = next_word_byte_of(cs.as_slice(), self.cursor);
    }

    /// Extends the selection one character left.
    pub fn extend_left(&mut self)
        requires
            wf(old(self)@),
            sel_cursor_of(old(self)@) > 0 ==> at_boundary(old(self)@.text, sel_cursor_of(old(self)@) as int),
        ensures
            wf(final(self)@),
            final(self)@ == extended_left(old(self)@),
    {
        let anchor = self.selection_anchor();
        let cur = self.selection_cursor();
        if cur == 0 {
            return;
        }
        let cs = self.text_chars();
        let (k, o) = floor_index(cs.as_slice(), cur);
        proof {
            if k == 0 {
                assert(cs@.take(0) =~= Seq::<char>::empty());
            }
            lemma_off_bounds(cs@, k - 1);
        }
        let new = offset_of(cs.as_slice(), k - 1);
        self.cursor = new;
        self.set_selection_range(anchor, new);
    }

    /// Extends the selection one character right.
    pub fn extend_right(&mut self)
        requires
            wf(old(self)@),
            sel_cursor_of(old(self)@) < blen(old(self)@.text) ==> at_boundary(old(self)@.text, sel_cursor_of(old(self)@) as int),
        ensures
            wf(final(self)@),
            final(self)@ == extended_right(old(self)@),
    {
        let anchor = self.selection_anchor();
        let cur = self.selection_cursor();
        let cs = self.text_chars();
        let len = byte_len(cs.as_slice());
        if cur >= len {
            return;
        }
        let (k, o) = floor_index(cs.as_slice(), cur);
        proof {
            if k == cs.len() {
                assert(cs@.take(cs@.len() as int) =~= cs@);
            }
            lemma_off_bounds(cs@, k + 1);
        }
        let new = offset_of(cs.as_slice(), k + 1);
        self.cursor = new;
        self.set_selection_range(anchor, new);
    }

    /// Extends the selection one word left.
    pub fn extend_word_left(&mut self)
        requires
            wf(old(self)@),
        ensures
            wf(final(self)@),
            final(self)@ == extended_word_left(old(self)@),
    {
        let anchor = self.selection_anchor();
        let cs = self.text_chars();
        let new = prev_word_byte_of(cs.as_slice(), anchor);
        self.set_selection_range(new, self.cursor);
    }

    /// Extends the selection one word right.
    pub fn extend_word_right(&mut self)
        requires
            wf(old(self)@),
        ensures
            wf(final(self)@),
            final(self)@ == extended_word_right(old(self)@),
    {
        let anchor = self.selection_anchor();
        let cs = self.text_chars();
        let len = byte_len(cs.as_slice());
        if self.cursor < len {
            let new = next_word_byte_of(cs.as_slice(), self.cursor);
            self.cursor = new;
            self.set_selection_range(anchor, new);
        }
    }

    /// Selects all text.
    pub fn select_all(&mut self)
        requires
            wf(old(self)@),
        ensures
            wf(final(self)@),
            final(self)@ == all_selected(old(self)@),
    {
        let cs = self.text_chars();
        let len = byte_len(cs.as_slice());
        if len > 0 {
            self.selection = Some((0, len));
            self.cursor = len;
        }
    }

    /// Replaces a range of text (used for command completions).
    pub fn replace_range(&mut self, start: usize, end: usize, replacement: &str)
        requires
            wf(old(self)@),
            start <= end,
            at_boundary(old(self)@.text, start as int),
            at_boundary(old(self)@.text, end as int),
            blen(old(self)@.text) + blen(replacement@) <= isize::MAX,
        ensures
            wf(final(self)@),
            final(self)@ == (EditorView {
                text: splice(
                    old(self)@.text,
                    floor_idx(old(self)@.text, start as int),
                    floor_idx(old(self)@.text, end as int),
                    replacement@,
                ),
                cursor: (start + blen(replacement@)) as usize,
                selection: None,
                ..old(self)@
            }),
    {
        let cs = self.text_chars();
        let (a, _) = floor_index(cs.as_slice(), start);
        let (b, _) = floor_index(cs.as_slice(), end);
        proof {
            lemma_floor_mono(cs@, start as int, end as int);
            lemma_off_bounds(cs@, a as int);
            lemma_off_bounds(cs@, b as int);
        }
        let rv = chars_of(replacement);
        let wl = byte_len(rv.as_slice());
        self.replace_chars(&cs, a, b, rv.as_slice());
        self.cursor = start + wl;
        self.selection = None;
    }

    /// Starts a mouse drag at the cursor.
    pub fn click_at_end(&mut self)
        ensures
            final(self)@ == (EditorView {
                drag_anchor: old(self)@.cursor,
                dragging: true,
                ..old(self)@
            }),
    {
        self.drag_anchor = self.cursor;
        self.dragging = true;
    }

    /// Extends a mouse drag to the end of the text; whether the selection changed.
    pub fn drag_to_end(&mut self) -> (r: bool)
        requires
            wf(old(self)@),
        ensures
            wf(final(self)@),
            r == (old(self)@.dragging && old(self)@.drag_anchor != blen(old(self)@.text)),
            final(self)@ == (if r {
                EditorView {
                    cursor: blen(old(self)@.text) as usize,
                    selection: range_of(
                        old(self)@.drag_anchor as int,
                        blen(old(self)@.text),
                        blen(old(self)@.text),
                    ),
                    ..old(self)@
                }
            } else {
                old(self)@
            }),
    {
        if !self.dragging {
            return false;
        }
        let cs = self.text_chars();
        let end = byte_len(cs.as_slice());
        if self.drag_anchor == end {
            return false;
        }
        self.cursor = end;
        let anchor = self.drag_anchor;
        self.set_selection_range(anchor, end);
        true
    }

    /// Ends a mouse drag.
    pub fn end_drag(&mut self)
        ensures
            final(self)@ == (EditorView { dragging: false, ..old(self)@ }),
    {
        self.dragging = false;
    }
}

proof fn lemma_splice_len_le(v: EditorView)
    requires
        wf(v),
        sel_ok(v),
    ensures
        blen(deleted_sel(v).text) <= blen(v.text),
{
    match v.selection {
        Some((s, e)) => {
            lemma_floor_mono(v.text, s as int, e as int);
            let a = floor_idx(v.text, s as int);
            let b = floor_idx(v.text, e as int);
            lemma_splice_len(v.text, a, b, Seq::empty());
            if a < b {
                lemma_utf8_len_take_mono(v.text, a, b);
            }
        },
        None => {},
    }
}

proof fn lemma_floor_from_at(t: Seq<char>, k: int, j: int)
    requires
        0 <= j <= k <= t.len(),
    ensures
        floor_from(t, off(t, k), j) == k,
    decreases k - j,
{
    if j < k {
        if j + 1 < k {
            lemma_utf8_len_take_mono(t, j + 1, k);
        }
        lemma_floor_from_at(t, k, j + 1);
    } else if k < t.len() {
        lemma_utf8_len_take_mono(t, k, k + 1);
    }
}

/// The boundary at char index `k` is its own floor.
proof fn lemma_floor_of_off(t: Seq<char>, k: int)
    requires
        0 <= k <= t.len(),
    ensures
        floor_idx(t, off(t, k)) == k,
        at_boundary(t, off(t, k)),
        off(t, k) == 0 <==> k == 0,
{
    lemma_floor_from_at(t, k, 0);
    lemma_off_bounds(t, k);
    assert(t.take(0) =~= Seq::<char>::empty());
    if k > 0 {
        lemma_utf8_len_take_mono(t, 0, k);
    }
}

/// After clamping, the cursor sits on the boundary of its own floor index.
proof fn lemma_clamped_boundary(v: EditorView)
    requires
        wf(v),
    ensures
        wf(clamped(v)),
        at_boundary(clamped(v).text, clamped(v).cursor as int),
        off(v.text, floor_idx(v.text, clamped(v).cursor as int)) == clamped(v).cursor,
        clamped(v).cursor > 0 ==> floor_idx(v.text, clamped(v).cursor as int) > 0,
{
    let c = min_of(v.cursor as int, blen(v.text));
    lemma_floor_from(v.text, c, 0);
    let fi = floor_idx(v.text, c);
    lemma_floor_of_off(v.text, fi);
}

/// The start of the previous word is a char boundary.
proof fn lemma_prev_word_boundary(t: Seq<char>, from: int)
    ensures
        at_boundary(t, prev_word(t, from)),
        floor_idx(t, prev_word(t, from)) == skip_word_back(
            t,
            skip_spaces_back(t, ceil_idx(t, if from < blen(t) { from } else { blen(t) })),
        ),
{
    let b = if from < blen(t) {
        from
    } else {
        blen(t)
    };
    lemma_ceil_from(t, b, 0);
    let k0 = ceil_idx(t, b);
    lemma_skip_bounds_back_spaces(t, k0);
    let k1 = skip_spaces_back(t, k0);
    lemma_skip_bounds_back_word(t, k1);
    lemma_floor_of_off(t, skip_word_back(t, k1));
}

/// Visual lines as char ranges, scanning from char `i` with the current line
/// starting at char `st`: a line ends at each `'\n'` (which belongs to no
/// line), and a line that already holds `w` chars is cut before the next char.
pub open spec fn vl_scan(t: Seq<char>, w: int, i: int, st: int) -> Seq<(int, int)>
    decreases t.len() - i,
{
    if i >= t.len() {
        seq![(st, t.len() as int)]
    } else if t[i] == '\n' {
        seq![(st, i)] + vl_scan(t, w, i + 1, i + 1)
    } else if i - st >= w {
        seq![(st, i)] + vl_scan(t, w, i + 1, i)
    } else {
        vl_scan(t, w, i + 1, st)
    }
}

/// Byte range of a char range of `t`.
pub open spec fn byte_range(t: Seq<char>, r: (int, int)) -> (usize, usize) {
    (off(t, r.0) as usize, off(t, r.1) as usize)
}

/// Visual lines of the editor as byte ranges: logical lines split on `'\n'`,
/// each soft-wrapped every `wrap` chars.
pub open spec fn vlines(v: EditorView) -> Seq<(usize, usize)> {
    let l = vl_scan(v.text, v.wrap as int, 0, 0);
    Seq::new(l.len(), |j: int| byte_range(v.text, l[j]))
}

/// Index of the first line from `i` on whose range holds byte `p`; the last
/// line when none does.
pub open spec fn find_line(ls: Seq<(usize, usize)>, p: int, i: int) -> int
    decreases ls.len() - i,
{
    if i >= ls.len() {
        if ls.len() == 0 {
            0
        } else {
            ls.len() - 1
        }
    } else if ls[i].0 <= p <= ls[i].1 {
        i
    } else {
        find_line(ls, p, i + 1)
    }
}

/// Visual line holding byte `p`.
pub open spec fn line_of(v: EditorView, p: int) -> int {
    find_line(vlines(v), p, 0)
}

/// Byte column of `p` within its visual line.
pub open spec fn col_of(v: EditorView, p: int) -> int {
    let s = vlines(v)[line_of(v, p)].0;
    if p >= s {
        p - s
    } else {
        0
    }
}

/// Byte at column `col` of visual line `li` (the last line past the end),
/// kept within the line.
pub open spec fn at_line_col(v: EditorView, li: int, col: int) -> int {
    let ls = vlines(v);
    let r = ls[min_of(li, ls.len() - 1)];
    min_of(r.0 + col, r.1 as int)
}

/// Where Up (or Down) moves the byte `cur`: same column on the line above
/// (below), the start (end) of the text from the first (last) line.
pub open spec fn vertical_target(v: EditorView, cur: int, up: bool) -> int {
    let li = line_of(v, cur);
    let col = col_of(v, cur);
    if up {
        if li == 0 {
            0
        } else {
            at_line_col(v, li - 1, col)
        }
    } else {
        if li >= vlines(v).len() - 1 {
            blen(v.text)
        } else {
            at_line_col(v, li + 1, col)
        }
    }
}

/// State after Up or Down.
pub open spec fn moved_vertically(v: EditorView, up: bool) -> EditorView {
    EditorView { cursor: vertical_target(v, v.cursor as int, up) as usize, ..v }
}

/// State after Shift+Up or Shift+Down.
pub open spec fn extended_vertically(v: EditorView, up: bool) -> EditorView {
    let new = vertical_target(v, sel_cursor_of(v) as int, up);
    EditorView {
        cursor: new as usize,
        selection: range_of(anchor_of(v) as int, new, blen(v.text)),
        ..v
    }
}

/// State after Home or End (`shift` extends the selection).
pub open spec fn line_edge(v: EditorView, home: bool, shift: bool) -> EditorView {
    let from = if shift {
        sel_cursor_of(v)
    } else {
        v.cursor
    };
    let r = vlines(v)[line_of(v, from as int)];
    let target = if home {
        r.0
    } else {
        r.1
    };
    if shift {
        EditorView {
            cursor: target,
            selection: range_of(anchor_of(v) as int, target as int, blen(v.text)),
            ..v
        }
    } else {
        EditorView { cursor: target, selection: None, ..v }
    }
}

proof fn lemma_off_mono(t: Seq<char>, a: int, b: int)
    requires
        0 <= a <= b <= t.len(),
    ensures
        off(t, a) <= off(t, b) <= blen(t),
{
    if a < b {
        lemma_utf8_len_take_mono(t, a, b);
    }
    lemma_off_bounds(t, b);
}

proof fn lemma_vl_scan_bounds(t: Seq<char>, w: int, i: int, st: int)
    requires
        0 <= st <= i <= t.len(),
    ensures
        vl_scan(t, w, i, st).len() >= 1,
        forall|j: int|
            0 <= j < vl_scan(t, w, i, st).len() ==> st <= #[trigger] vl_scan(t, w, i, st)[j].0
                <= vl_scan(t, w, i, st)[j].1 <= t.len(),
    decreases t.len() - i,
{
    if i < t.len() {
        if t[i] == '\n' {
            lemma_vl_scan_bounds(t, w, i + 1, i + 1);
        } else if i - st >= w {
            lemma_vl_scan_bounds(t, w, i + 1, i);
        } else {
            lemma_vl_scan_bounds(t, w, i + 1, st);
        }
    }
}

/// Every visual line is an ordered byte range within the text, and there is
/// at least one.
proof fn lemma_vlines_bounds(v: EditorView)
    requires
        wf(v),
    ensures
        vlines(v).len() >= 1,
        forall|j: int|
            0 <= j < vlines(v).len() ==> #[trigger] vlines(v)[j].0 <= vlines(v)[j].1 <= blen(v.text),
{
    let t = v.text;
    let l = vl_scan(t, v.wrap as int, 0, 0);
    lemma_vl_scan_bounds(t, v.wrap as int, 0, 0);
    assert forall|j: int| 0 <= j < vlines(v).len() implies #[trigger] vlines(v)[j].0 <= vlines(v)[j].1
        <= blen(v.text) by {
        assert(0 <= l[j].0 <= l[j].1 <= t.len());
        lemma_off_mono(t, l[j].0, l[j].1);
        assert(vlines(v)[j] == byte_range(t, l[j]));
    }
}

proof fn lemma_find_line_bounds(ls: Seq<(usize, usize)>, p: int, i: int)
    requires
        0 <= i,
        ls.len() >= 1,
    ensures
        0 <= find_line(ls, p, i) < ls.len(),
    decreases ls.len() - i,
{
    if i < ls.len() && !(ls[i].0 <= p <= ls[i].1) {
        lemma_find_line_bounds(ls, p, i + 1);
    }
}

fn line_index_in(ls: &Vec<(usize, usize)>, p: usize) -> (r: usize)
    requires
        ls.len() >= 1,
    ensures
        r == find_line(ls@, p as int, 0),
        r < ls.len(),
{
    proof {
        lemma_find_line_bounds(ls@, p as int, 0);
    }
    let mut i: usize = 0;
    while i < ls.len()
        invariant
            i <= ls.len(),
            ls.len() >= 1,
            find_line(ls@, p as int, 0) == find_line(ls@, p as int, i as int),
        decreases ls.len() - i,
    {
        let (s, e) = ls[i];
        if s <= p && p <= e {
            return i;
        }
        i += 1;
    }
    ls.len() - 1
}

impl ComposerEditor {
    /// Returns visual lines (byte ranges) splitting on explicit `\n` and soft-wrapping.
    pub fn visual_lines(&self) -> (r: Vec<(usize, usize)>)
        requires
            wf(self@),
        ensures
            r@ == vlines(self@),
    {
        let cs = self.text_chars();
        let w = self.wrap_chars;
        let ghost t = cs@;
        let ghost full = vl_scan(t, w as int, 0, 0);
        let mut out: Vec<(usize, usize)> = Vec::new();
        let ghost mut gl: Seq<(int, int)> = Seq::empty();
        let mut i: usize = 0;
        let mut o: usize = 0;
        let mut st: usize = 0;
        let mut ost: usize = 0;
        assert(t.take(0) =~= Seq::<char>::empty());
        assert(gl + vl_scan(t, w as int, 0, 0) =~= full);
        while i < cs.len()
            invariant
                t == cs@,
                t == self@.text,
                w == self@.wrap,
                wf(self@),
                full == vl_scan(t, w as int, 0, 0),
                st <= i <= cs.len(),
                o == off(t, i as int),
                ost == off(t, st as int),
                gl + vl_scan(t, w as int, i as int, st as int) == full,
                out@.len() == gl.len(),
                forall|j: int| 0 <= j < gl.len() ==> #[trigger] out@[j] == byte_range(t, gl[j]),
            decreases cs.len() - i,
        {
            proof {
                lemma_utf8_len_take_step(t, i as int);
                lemma_off_bounds(t, i + 1);
            }
            let c = cs[i];
            let next = o + char_width(c) as usize;
            if c == '\n' {
                out.push((ost, o));
                proof {
                    let x = (st as int, i as int);
                    assert(gl + (seq![x] + vl_scan(t, w as int, i + 1, i + 1)) =~= gl.push(x)
                        + vl_scan(t, w as int, i + 1, i + 1));
                    gl = gl.push(x);
                }
                st = i + 1;
                ost = next;
            } else if i - st >= w {
                out.push((ost, o));
                proof {
                    let x = (st as int, i as int);
                    assert(gl + (seq![x] + vl_scan(t, w as int, i + 1, i as int)) =~= gl.push(x)
                        + vl_scan(t, w as int, i + 1, i as int));
                    gl = gl.push(x);
                }
                st = i;
                ost = o;
            }
            i += 1;
            o = next;
        }
        out.push((ost, o));
        proof {
            let x = (st as int, i as int);
            gl = gl.push(x);
            assert(gl =~= full);
            assert(out@ =~= vlines(self@));
        }
        out
    }

    /// Returns the index of the visual line containing the given byte position.
    pub fn visual_line_index(&self, byte_pos: usize) -> (r: usize)
        requires
            wf(self@),
        ensures
            r == line_of(self@, byte_pos as int),
            r < vlines(self@).len(),
    {
        let ls = self.visual_lines();
        proof {
            lemma_vlines_bounds(self@);
        }
        line_index_in(&ls, byte_pos)
    }
}

/// The selection cleared.
pub open spec fn cleared(v: EditorView) -> EditorView {
    EditorView { selection: None, ..v }
}

/// State after Ctrl+A.
pub open spec fn all_selected(v: EditorView) -> EditorView {
    if blen(v.text) > 0 {
        EditorView {
            selection: Some((0usize, blen(v.text) as usize)),
            cursor: blen(v.text) as usize,
            ..v
        }
    } else {
        v
    }
}

/// Keys whose handling slices the text at the cursor or the selection need
/// those on char boundaries.
pub open spec fn key_safe(v: EditorView, key: Seq<char>, ctrl: bool, shift: bool, other: bool) -> bool {
    other || {
        &&& key == "backspace"@ ==> sel_ok(v) && (ctrl && v.selection is None ==> at_boundary(
            v.text,
            v.cursor as int,
        ))
        &&& key == "delete"@ ==> sel_ok(v)
        &&& key == "left"@ && shift && !ctrl ==> (sel_cursor_of(v) > 0 ==> at_boundary(
            v.text,
            sel_cursor_of(v) as int,
        ))
        &&& key == "right"@ && shift && !ctrl ==> (sel_cursor_of(v) < blen(v.text) ==> at_boundary(
            v.text,
            sel_cursor_of(v) as int,
        ))
    }
}

/// State after a key press, and whether the editor consumed it. `other` is
/// Alt or the platform modifier, which leave every key to the shell.
pub open spec fn key_down(v: EditorView, key: Seq<char>, ctrl: bool, shift: bool, other: bool) -> (
    EditorView,
    bool,
) {
    if other {
        (v, false)
    } else if key == "backspace"@ {
        (
            if ctrl {
                deleted_prev_word(v)
            } else {
                deleted_before(v)
            },
            true,
        )
    } else if key == "delete"@ {
        (deleted_at(v), true)
    } else if key == "left"@ {
        (
            if ctrl && shift {
                extended_word_left(v)
            } else if shift {
                extended_left(v)
            } else if ctrl {
                moved_word_left(cleared(v))
            } else {
                moved_left(cleared(v))
            },
            true,
        )
    } else if key == "right"@ {
        (
            if ctrl && shift {
                extended_word_right(v)
            } else if shift {
                extended_right(v)
            } else if ctrl {
                moved_word_right(cleared(v))
            } else {
                moved_right(cleared(v))
            },
            true,
        )
    } else if key == "up"@ {
        (
            if shift {
                extended_vertically(v, true)
            } else {
                moved_vertically(cleared(v), true)
            },
            true,
        )
    } else if key == "down"@ {
        (
            if shift {
                extended_vertically(v, false)
            } else {
                moved_vertically(cleared(v), false)
            },
            true,
        )
    } else if key == "home"@ {
        (line_edge(v, true, shift), true)
    } else if key == "end"@ {
        (line_edge(v, false, shift), true)
    } else if key == "a"@ && ctrl {
        (all_selected(v), true)
    } else {
        (v, false)
    }
}

impl ComposerEditor {
    /// Byte offset within the current visual line.
    fn column_in_line(&self, byte_pos: usize) -> (r: usize)
        requires
            wf(self@),
        ensures
            r == col_of(self@, byte_pos as int),
    {
        let ls = self.visual_lines();
        let li = self.visual_line_index(byte_pos);
        let (s, _) = ls[li];
        if byte_pos >= s {
            byte_pos - s
        } else {
            0
        }
    }

    /// Converts (line_index, column_bytes) to a byte offset in the full text.
    fn byte_from_line_col(&self, line_index: usize, col_bytes: usize) -> (r: usize)
        requires
            wf(self@),
        ensures
            r == at_line_col(self@, line_index as int, col_bytes as int),
            r <= blen(self@.text),
    {
        let ls = self.visual_lines();
        proof {
            lemma_vlines_bounds(self@);
        }
        let j = if line_index < ls.len() - 1 {
            line_index
        } else {
            ls.len() - 1
        };
        let (s, e) = ls[j];
        assert(s <= e <= blen(self@.text));
        if col_bytes >= e - s {
            e
        } else {
            s + col_bytes
        }
    }

    fn vertical_target_of(&self, cur: usize, up: bool) -> (r: usize)
        requires
            wf(self@),
        ensures
            r == vertical_target(self@, cur as int, up),
            r <= blen(self@.text),
    {
        let li = self.visual_line_index(cur);
        let col = self.column_in_line(cur);
        if up {
            if li == 0 {
                0
            } else {
                self.byte_from_line_col(li - 1, col)
            }
        } else {
            let n = self.visual_lines().len();
            if li >= n - 1 {
                let cs = self.text_chars();
                byte_len(cs.as_slice())
            } else {
                self.byte_from_line_col(li + 1, col)
            }
        }
    }

    /// Moves the cursor up one visual line, preserving column.
    pub fn move_up(&mut self)
        requires
            wf(old(self)@),
        ensures
            wf(final(self)@),
            final(self)@ == moved_vertically(old(self)@, true),
    {
        self.cursor = self.vertical_target_of(self.cursor, true);
    }

    /// Moves the cursor down one visual line, preserving column.
    pub fn move_down(&mut self)
        requires
            wf(old(self)@),
        ensures
            wf(final(self)@),
            final(self)@ == moved_vertically(old(self)@, false),
    {
        self.cursor = self.vertical_target_of(self.cursor, false);
    }

    /// Extends the selection up one visual line.
    pub fn extend_up(&mut self)
        requires
            wf(old(self)@),
        ensures
            wf(final(self)@),
            final(self)@ == extended_vertically(old(self)@, true),
    {
        let anchor = self.selection_anchor();
        let cur = self.selection_cursor();
        let new = self.vertical_target_of(cur, true);
        self.cursor = new;
        self.set_selection_range(anchor, new);
    }

    /// Extends the selection down one visual line.
    pub fn extend_down(&mut self)
        requires
            wf(old(self)@),
        ensures
            wf(final(self)@),
            final(self)@ == extended_vertically(old(self)@, false),
    {
        let anchor = self.selection_anchor();
        let cur = self.selection_cursor();
        let new = self.vertical_target_of(cur, false);
        self.cursor = new;
        self.set_selection_range(anchor, new);
    }

    fn go_line_edge(&mut self, home: bool, shift: bool)
        requires
            wf(old(self)@),
        ensures
            wf(final(self)@),
            final(self)@ == line_edge(old(self)@, home, shift),
    {
        let lines = self.visual_lines();
        proof {
            lemma_vlines_bounds(self@);
        }
        let from = if shift {
            self.selection_cursor()
        } else {
            self.cursor
        };
        let li = self.visual_line_index(from);
        let (s, e) = lines[li];
        let target = if home {
            s
        } else {
            e
        };
        if shift {
            let anchor = self.selection_anchor();
            self.set_selection_range(anchor, target);
            self.cursor = target;
        } else {
            self.clear_selection();
            self.cursor = target;
        }
    }

    /// Processes a key press (`alt_or_platform`: Alt or the platform modifier
    /// is held). Returns `true` if consumed.
    pub fn on_key_down(&mut self, key: &str, control: bool, shift: bool, alt_or_platform: bool) -> (r: bool)
        requires
            wf(old(self)@),
            key_safe(old(self)@, key@, control, shift, alt_or_platform),
        ensures
            wf(final(self)@),
            (final(self)@, r) == key_down(old(self)@, key@, control, shift, alt_or_platform),
    {
        if alt_or_platform {
            return false;
        }
        if str_eq(key, "backspace") {
            if control {
                self.delete_prev_word();
            } else {
                self.delete_before_cursor();
            }
            true
        } else if str_eq(key, "delete") {
            self.delete_at_cursor();
            true
        } else if str_eq(key, "left") {
            if control && shift {
                self.extend_word_left();
            } else if shift {
                self.extend_left();
            } else if control {
                self.clear_selection();
                self.move_word_left();
            } else {
                self.clear_selection();
                self.move_left();
            }
            true
        } else if str_eq(key, "right") {
            if control && shift {
                self.extend_word_right();
            } else if shift {
                self.extend_right();
            } else if control {
                self.clear_selection();
                self.move_word_right();
            } else {
                self.clear_selection();
                self.move_right();
            }
            true
        } else if str_eq(key, "up") {
            if shift {
                self.extend_up();
            } else {
                self.clear_selection();
                self.move_up();
            }
            true
        } else if str_eq(key, "down") {
            if shift {
                self.extend_down();
            } else {
                self.clear_selection();
                self.move_down();
            }
            true
        } else if str_eq(key, "home") {
            self.go_line_edge(true, shift);
            true
        } else if str_eq(key, "end") {
            self.go_line_edge(false, shift);
            true
        } else if control && str_eq(key, "a") {
            self.select_all();
            true
        } else {
            false
        }
    }
}

/// Byte offset of the `ci`-th char of visual line `li`, kept within the line;
/// the end of the text below the last line.
pub open spec fn cursor_at_spec(v: EditorView, li: int, ci: int) -> int {
    let l = vl_scan(v.text, v.wrap as int, 0, 0);
    if li >= l.len() {
        blen(v.text)
    } else {
        off(v.text, min_of(l[li].0 + ci, l[li].1))
    }
}

impl ComposerEditor {
    /// Byte offset for a pointer over char `char_index` of visual line
    /// `line_index` (the shell derives both from pixel coordinates).
    pub fn cursor_at(&self, line_index: usize, char_index: usize) -> (r: usize)
        requires
            wf(self@),
        ensures
            r == cursor_at_spec(self@, line_index as int, char_index as int),
            r <= blen(self@.text),
    {
        let lines = self.visual_lines();
        let cs = self.text_chars();
        let ghost t = cs@;
        let ghost l = vl_scan(t, self@.wrap as int, 0, 0);
        if line_index >= lines.len() {
            return byte_len(cs.as_slice());
        }
        let (s, e) = lines[line_index];
        proof {
            lemma_vl_scan_bounds(t, self@.wrap as int, 0, 0);
            assert(0 <= l[line_index as int].0 <= l[line_index as int].1 <= t.len());
            assert(lines@[line_index as int] == byte_range(t, l[line_index as int]));
            lemma_off_bounds(t, l[line_index as int].0);
            lemma_off_bounds(t, l[line_index as int].1);
            lemma_floor_of_off(t, l[line_index as int].0);
            lemma_floor_of_off(t, l[line_index as int].1);
        }
        let (a, _) = floor_index(cs.as_slice(), s);
        let (b, _) = floor_index(cs.as_slice(), e);
        let k = if char_index >= b - a {
            b
        } else {
            a + char_index
        };
        proof {
            lemma_off_bounds(t, k as int);
        }
        offset_of(cs.as_slice(), k)
    }
}

/// Typing a char and then pressing Backspace gives back the text and the
/// cursor, when nothing was selected and the cursor sat on a char boundary.
pub proof fn law_backspace_undoes_insert(v: EditorView, ch: char)
    requires
        wf(v),
        v.selection is None,
        at_boundary(v.text, v.cursor as int),
        blen(v.text) + 4 <= isize::MAX,
    ensures
        deleted_before(inserted(v, seq![ch])).text == v.text,
        deleted_before(inserted(v, seq![ch])).cursor == v.cursor,
{
    let t = v.text;
    let ins = seq![ch];
    assert(ins.drop_last() =~= Seq::<char>::empty());
    assert(utf8_len(Seq::<char>::empty()) == 0);
    assert(blen(ins) == utf8_width(ch));
    assert(clamped(v) == v);
    let k = floor_idx(t, v.cursor as int);
    lemma_floor_from(t, v.cursor as int, 0);
    let v1 = inserted(v, ins);
    let t1 = splice(t, k, k, ins);
    assert(v1.text == t1);
    lemma_splice_len(t, k, k, ins);
    lemma_off_bounds(t, k);
    assert(wf(v1));
    lemma_floor_of_off(t1, k + 1);
    assert(clamped(v1) == v1);
    assert(floor_idx(t1, v1.cursor as int) == k + 1);
    assert(splice(t1, k, k + 1, Seq::empty()) =~= t);
    assert(t1.take(k) =~= t.take(k));
}

/// Where `floor_from` stops: at the end, or before a char that ends past `b`.
proof fn lemma_floor_from_stop(t: Seq<char>, b: int, k: int)
    requires
        0 <= k <= t.len(),
    ensures
        floor_from(t, b, k) == t.len() || off(t, floor_from(t, b, k) + 1) > b,
    decreases t.len() - k,
{
    if 0 <= k < t.len() && off(t, k + 1) <= b {
        lemma_floor_from_stop(t, b, k + 1);
    }
}

/// From a byte before the end, the next word boundary lies strictly after
/// it and within the text.
proof fn lemma_next_word_advances(t: Seq<char>, c: int)
    requires
        0 <= c < blen(t),
    ensures
        c < next_word(t, c) <= blen(t),
{
    let k = floor_idx(t, c);
    lemma_floor_from(t, c, 0);
    lemma_floor_from_stop(t, c, 0);
    if k == t.len() {
        assert(t.take(t.len() as int) =~= t);
        if k > 0 {
            assert(off(t, k) <= c);
        } else {
            assert(t.take(0) =~= Seq::<char>::empty());
        }
        assert(false);
    }
    assert(off(t, k + 1) > c);
    let w = skip_word_fwd(t, k);
    lemma_skip_bounds_fwd_word(t, k);
    lemma_skip_bounds_fwd_spaces(t, w);
    let j = skip_spaces_fwd(t, w);
    if t[k] != ' ' {
        lemma_skip_bounds_fwd_word(t, k + 1);
    } else {
        assert(w == k);
        lemma_skip_bounds_fwd_spaces(t, k + 1);
    }
    assert(j >= k + 1);
    if j > k + 1 {
        lemma_utf8_len_take_mono(t, k + 1, j);
    }
    lemma_off_bounds(t, j);
}

/// Ctrl+Shift+Right from a cursor before the end of the text moves the
/// cursor forward and selects from the previous anchor (the cursor when
/// nothing was selected) to the new cursor; without a selection, the new
/// selection is exactly the text passed over, so it is never empty.
pub proof fn law_ctrl_shift_right_selects_word(v: EditorView)
    requires
        wf(v),
        sel_ok(v),
        v.cursor < blen(v.text),
    ensures
        ({
            let (w, handled) = key_down(v, "right"@, true, true, false);
            let a: int = match v.selection {
                Some((s, _)) => s as int,
                None => v.cursor as int,
            };
            &&& handled
            &&& w.text == v.text
            &&& v.cursor < w.cursor <= blen(v.text)
            &&& (a != w.cursor ==> w.selection == Some(
                (
                    (if a < w.cursor {
                        a
                    } else {
                        w.cursor as int
                    }) as usize,
                    (if a < w.cursor {
                        w.cursor as int
                    } else {
                        a
                    }) as usize,
                ),
            ))
            &&& (v.selection is None ==> w.selection == Some((v.cursor, w.cursor)))
        }),
{
    reveal_strlit("right");
    reveal_strlit("backspace");
    reveal_strlit("delete");
    reveal_strlit("left");
    lemma_next_word_advances(v.text, v.cursor as int);
    assert("right"@.len() != "backspace"@.len());
    assert("right"@.len() != "delete"@.len());
    assert("right"@.len() != "left"@.len());
    let w = extended_word_right(v);
    assert(key_down(v, "right"@, true, true, false) == (w, true));
    let nw = next_word(v.text, v.cursor as int);
    assert(w.cursor == nw);
    let a: int = anchor_of(v) as int;
    assert(0 <= a <= blen(v.text));
    assert(w.selection == range_of(a, nw, blen(v.text)));
}

} // verus!
