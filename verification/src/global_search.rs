//! Global search across threads, artifacts, and memories.
//!
//! Filter, ranking and grouping of search hits over plain documents.

use crate::text::{
    byte_offset, char_width, chars_of, concat2, contains, contains_chars, find_chars, first_occurrence, str_eq, lemma_lex_asym, lemma_lex_neg_trans, lemma_utf8_len_concat, lemma_utf8_len_lower, lemma_utf8_len_take_le, lemma_utf8_len_take_step, lex_lt, lower_chars, lower_seq, occurs_at, owned, string_of, trim, trim_str, utf8_len,
};
use vstd::prelude::*;

verus! {

/// Which content corpus a search hit belongs to.
#[derive(Debug, Clone, Copy, PartialEq, Eq, Hash, Structural)]
pub enum SearchContentKind {
    /// Thread title and/or message body.
    Thread,
    /// Artifact title/content.
    Artifact,
    /// Memory title/content.
    Memory,
}

/// Group label of a content kind.
pub open spec fn kind_label(k: SearchContentKind) -> Seq<char> {
    match k {
        SearchContentKind::Thread => "Threads"@,
        SearchContentKind::Artifact => "Artifacts"@,
        SearchContentKind::Memory => "Memories"@,
    }
}

impl SearchContentKind {
    /// User-visible group label for result sections.
    pub fn label(self) -> (r: &'static str)
        ensures
            r@ == kind_label(self),
    {
        match self {
            Self::Thread => "Threads",
            Self::Artifact => "Artifacts",
            Self::Memory => "Memories",
        }
    }
}

/// Characters of an optional owned string.
pub open spec fn opt_view(o: Option<String>) -> Option<Seq<char>> {
    match o {
        Some(s) => Some(s@),
        None => None,
    }
}

/// Characters of an optional string slice.
pub open spec fn opt_str_view(o: Option<&str>) -> Option<Seq<char>> {
    match o {
        Some(s) => Some(s@),
        None => None,
    }
}

/// Optional constraints applied after text matching.
#[derive(Debug, Clone, PartialEq, Eq)]
pub struct SearchFilters {
    /// When non-empty, only these kinds are included.
    pub kinds: Vec<SearchContentKind>,
    /// Exact provider match when set (threads only typically).
    pub provider: Option<String>,
    /// Exact model match when set.
    pub model: Option<String>,
    /// Inclusive lower bound on `created_at` (Unix ms).
    pub created_after_ms: Option<i64>,
    /// Inclusive upper bound on `created_at` (Unix ms).
    pub created_before_ms: Option<i64>,
}

/// Mathematical view of [`SearchFilters`].
pub struct FiltersView {
    /// Allowed kinds (all when empty).
    pub kinds: Seq<SearchContentKind>,
    /// Required provider, matched exactly.
    pub provider: Option<Seq<char>>,
    /// Required model, matched exactly.
    pub model: Option<Seq<char>>,
    /// Inclusive lower bound on creation time.
    pub after: Option<i64>,
    /// Inclusive upper bound on creation time.
    pub before: Option<i64>,
}

impl View for SearchFilters {
    type V = FiltersView;

    open spec fn view(&self) -> FiltersView {
        FiltersView {
            kinds: self.kinds@,
            provider: opt_view(self.provider),
            model: opt_view(self.model),
            after: self.created_after_ms,
            before: self.created_before_ms,
        }
    }
}

/// Filters that constrain nothing.
pub open spec fn no_filters() -> FiltersView {
    FiltersView { kinds: Seq::empty(), provider: None, model: None, after: None, before: None }
}

impl Default for SearchFilters {
    fn default() -> (r: Self)
        ensures
            r@ == no_filters(),
    {
        SearchFilters {
            kinds: Vec::new(),
            provider: None,
            model: None,
            created_after_ms: None,
            created_before_ms: None,
        }
    }
}

/// One searchable unit (thread message, artifact, or memory).
#[derive(Debug, Clone, PartialEq, Eq)]
pub struct SearchDocument {
    /// Corpus kind.
    pub kind: SearchContentKind,
    /// Stable id for the hit (message id, artifact id, or memory id).
    pub id: String,
    /// Primary title shown in results.
    pub title: String,
    /// Full searchable body text.
    pub body: String,
    /// Owning thread when applicable.
    pub thread_id: Option<String>,
    /// Message id for scroll-to-match when kind is Thread.
    pub message_id: Option<String>,
    /// Thread provider when known.
    pub provider: Option<String>,
    /// Thread model when known.
    pub model: Option<String>,
    /// Creation time (Unix ms) used by date filters.
    pub created_at: i64,
}

/// Mathematical view of a [`SearchDocument`].
pub struct DocView {
    /// Corpus kind.
    pub kind: SearchContentKind,
    /// Stable id.
    pub id: Seq<char>,
    /// Title.
    pub title: Seq<char>,
    /// Body.
    pub body: Seq<char>,
    /// Owning thread.
    pub thread_id: Option<Seq<char>>,
    /// Message id.
    pub message_id: Option<Seq<char>>,
    /// Provider.
    pub provider: Option<Seq<char>>,
    /// Model.
    pub model: Option<Seq<char>>,
    /// Creation time (Unix ms).
    pub created_at: i64,
}

impl View for SearchDocument {
    type V = DocView;

    open spec fn view(&self) -> DocView {
        DocView {
            kind: self.kind,
            id: self.id@,
            title: self.title@,
            body: self.body@,
            thread_id: opt_view(self.thread_id),
            message_id: opt_view(self.message_id),
            provider: opt_view(self.provider),
            model: opt_view(self.model),
            created_at: self.created_at,
        }
    }
}

/// Views of a sequence of documents.
pub open spec fn docs_view(s: Seq<SearchDocument>) -> Seq<DocView> {
    s.map_values(|d: SearchDocument| d@)
}

/// A ranked search match with a short snippet.
#[derive(Debug, Clone, PartialEq, Eq)]
pub struct SearchHit {
    /// Underlying document.
    pub document: SearchDocument,
    /// Short excerpt highlighting the match context.
    pub snippet: String,
    /// Higher is better (title matches outrank body-only).
    pub score: u32,
}

/// Mathematical view of a [`SearchHit`].
pub struct HitView {
    /// Underlying document.
    pub doc: DocView,
    /// Excerpt.
    pub snippet: Seq<char>,
    /// Rank score.
    pub score: u32,
}

impl View for SearchHit {
    type V = HitView;

    open spec fn view(&self) -> HitView {
        HitView { doc: self.document@, snippet: self.snippet@, score: self.score }
    }
}

/// Views of a sequence of hits.
pub open spec fn hits_view(s: Seq<SearchHit>) -> Seq<HitView> {
    s.map_values(|h: SearchHit| h@)
}

/// Date-range presets for the search filter UI.
#[derive(Debug, Clone, Copy, PartialEq, Eq, Structural)]
pub enum SearchDatePreset {
    /// No date constraint.
    Any,
    /// Created within the last 7 days.
    Last7Days,
    /// Created within the last 30 days.
    Last30Days,
    /// Created within the last 365 days.
    LastYear,
}

impl Default for SearchDatePreset {
    fn default() -> (r: Self)
        ensures
            r == SearchDatePreset::Any,
    {
        SearchDatePreset::Any
    }
}

/// Milliseconds in a day.
pub const DAY_MS: i64 = 86_400_000;

/// Days a preset reaches back, if any.
pub open spec fn preset_days(p: SearchDatePreset) -> Option<int> {
    match p {
        SearchDatePreset::Any => None,
        SearchDatePreset::Last7Days => Some(7),
        SearchDatePreset::Last30Days => Some(30),
        SearchDatePreset::LastYear => Some(365),
    }
}

/// Lower bound a preset sets for reference time `now_ms`.
pub open spec fn preset_after(p: SearchDatePreset, now_ms: i64) -> Option<i64> {
    match preset_days(p) {
        Some(d) => Some((now_ms - d * DAY_MS) as i64),
        None => None,
    }
}

/// The preset's lower bound fits in `i64`.
pub open spec fn preset_ok(p: SearchDatePreset, now_ms: i64) -> bool {
    match preset_days(p) {
        Some(d) => now_ms - d * DAY_MS >= i64::MIN,
        None => true,
    }
}

/// Filters after applying preset `p` at `now_ms`.
pub open spec fn with_preset(f: FiltersView, p: SearchDatePreset, now_ms: i64) -> FiltersView {
    FiltersView { after: preset_after(p, now_ms), before: None, ..f }
}

impl SearchDatePreset {
    /// Applies this preset onto `filters` using `now_ms` as the reference clock.
    pub fn apply(self, filters: &mut SearchFilters, now_ms: i64)
        requires
            preset_ok(self, now_ms),
        ensures
            final(filters)@ == with_preset(old(filters)@, self, now_ms),
    {
        let day_ms = DAY_MS;
        filters.created_before_ms = None;
        filters.created_after_ms = match self {
            Self::Any => None,
            Self::Last7Days => Some(now_ms - 7 * day_ms),
            Self::Last30Days => Some(now_ms - 30 * day_ms),
            Self::LastYear => Some(now_ms - 365 * day_ms),
        };
    }
}

/// UI state for the global search overlay.
#[derive(Debug, Clone, PartialEq, Eq)]
pub struct SearchPanelState {
    open: bool,
    query: String,
    filters: SearchFilters,
    selected: usize,
    date_preset: SearchDatePreset,
}

/// Mathematical view of [`SearchPanelState`].
pub struct PanelView {
    /// Overlay visible.
    pub open: bool,
    /// Query text.
    pub query: Seq<char>,
    /// Active filters.
    pub filters: FiltersView,
    /// Selected hit index.
    pub selected: usize,
    /// Active date preset.
    pub preset: SearchDatePreset,
}

impl View for SearchPanelState {
    type V = PanelView;

    closed spec fn view(&self) -> PanelView {
        PanelView {
            open: self.open,
            query: self.query@,
            filters: self.filters@,
            selected: self.selected,
            preset: self.date_preset,
        }
    }
}

/// Selection after moving `sel` by `delta`, wrapping within `count` hits.
pub open spec fn wrapped_selection(sel: usize, delta: isize, count: usize) -> usize {
    if count == 0 {
        0
    } else {
        ((sel + delta) % (count as int)) as usize
    }
}

/// The wrap arithmetic stays within `isize`.
pub open spec fn wrap_ok(sel: usize, delta: isize, count: usize) -> bool {
    count == 0 || (count <= isize::MAX && sel <= isize::MAX && isize::MIN <= sel + delta
        <= isize::MAX)
}

impl Default for SearchPanelState {
    fn default() -> (s: Self)
        ensures
            s@ == (PanelView {
                open: false,
                query: Seq::empty(),
                filters: no_filters(),
                selected: 0,
                preset: SearchDatePreset::Any,
            }),
    {
        SearchPanelState {
            open: false,
            query: String::new(),
            filters: SearchFilters::default(),
            selected: 0,
            date_preset: SearchDatePreset::Any,
        }
    }
}

impl SearchPanelState {
    /// Whether the search overlay is visible.
    pub fn is_open(&self) -> (r: bool)
        ensures
            r == self@.open,
    {
        self.open
    }

    /// Opens the search overlay.
    pub fn open(&mut self)
        ensures
            final(self)@ == (PanelView { open: true, ..old(self)@ }),
    {
        self.open = true;
    }

    /// Closes the search overlay.
    pub fn close(&mut self)
        ensures
            final(self)@ == (PanelView { open: false, ..old(self)@ }),
    {
        self.open = false;
    }

    /// Toggles the search overlay.
    pub fn toggle(&mut self)
        ensures
            final(self)@ == (PanelView { open: !old(self)@.open, ..old(self)@ }),
    {
        self.open = !self.open;
    }

    /// Current query string.
    pub fn query(&self) -> (r: &str)
        ensures
            r@ == self@.query,
    {
        self.query.as_str()
    }

    /// Replaces the query (caller re-runs [`search`]).
    pub fn set_query(&mut self, query: &str)
        ensures
            final(self)@ == (PanelView { query: query@, selected: 0, ..old(self)@ }),
    {
        self.query = owned(query);
        self.selected = 0;
    }

    /// Active filters.
    pub fn filters(&self) -> (r: &SearchFilters)
        ensures
            r@ == self@.filters,
    {
        &self.filters
    }

    /// Mutable filters.
    pub fn filters_mut(&mut self) -> (r: &mut SearchFilters)
        ensures
            r@ == old(self)@.filters,
            final(self)@ == (PanelView { filters: final(r)@, ..old(self)@ }),
    {
        &mut self.filters
    }

    /// Active date-range preset (for UI chip highlighting).
    pub fn date_preset(&self) -> (r: SearchDatePreset)
        ensures
            r == self@.preset,
    {
        self.date_preset
    }

    /// Sets a date-range preset and updates filter bounds from `now_ms`.
    pub fn set_date_preset(&mut self, preset: SearchDatePreset, now_ms: i64)
        requires
            preset_ok(preset, now_ms),
        ensures
            final(self)@ == (PanelView {
                preset,
                filters: with_preset(old(self)@.filters, preset, now_ms),
                selected: 0,
                ..old(self)@
            }),
    {
        self.date_preset = preset;
        preset.apply(&mut self.filters, now_ms);
        self.selected = 0;
    }

    /// Selected result index within the current hit list.
    pub fn selected(&self) -> (r: usize)
        ensures
            r == self@.selected,
    {
        self.selected
    }

    /// Moves selection within `hit_count` (wrapping).
    pub fn move_selection(&mut self, delta: isize, hit_count: usize)
        requires
            wrap_ok(old(self)@.selected, delta, hit_count),
        ensures
            final(self)@ == (PanelView {
                selected: wrapped_selection(old(self)@.selected, delta, hit_count),
                ..old(self)@
            }),
            hit_count > 0 ==> final(self)@.selected < hit_count,
    {
        if hit_count == 0 {
            self.selected = 0;
            return;
        }
        let next: isize = self.selected as isize + delta;
        let r: usize = if next >= 0 {
            (next as usize) % hit_count
        } else {
            let neg: usize = (-(next + 1)) as usize;
            let m = neg % hit_count;
            proof {
                let n = hit_count as int;
                let x = next as int;
                assert(x == -(neg as int) - 1);
                assert((x % n) == n - 1 - (neg as int % n)) by (nonlinear_arith)
                    requires
                        x == -(neg as int) - 1,
                        n > 0,
                        neg >= 0,
                {
                    let q = neg as int / n;
                    let r0 = neg as int % n;
                    assert(neg as int == q * n + r0);
                    assert(x == (-q - 1) * n + (n - 1 - r0));
                    assert(0 <= n - 1 - r0 < n);
                    vstd::arithmetic::div_mod::lemma_fundamental_div_mod_converse(
                        x,
                        n,
                        -q - 1,
                        n - 1 - r0,
                    );
                }
            }
            hit_count - 1 - m
        };
        self.selected = r;
    }
}

/// Whether a document passes the filters (ignoring the text query).
pub open spec fn passes(d: DocView, f: FiltersView) -> bool {
    &&& (f.kinds.len() == 0 || f.kinds.contains(d.kind))
    &&& (f.provider matches Some(p) ==> d.provider == Some(p))
    &&& (f.model matches Some(m) ==> d.model == Some(m))
    &&& (f.after matches Some(a) ==> d.created_at >= a)
    &&& (f.before matches Some(b) ==> d.created_at <= b)
}

fn kinds_contain(kinds: &Vec<SearchContentKind>, k: SearchContentKind) -> (r: bool)
    ensures
        r == kinds@.contains(k),
{
    let mut i: usize = 0;
    while i < kinds.len()
        invariant
            i <= kinds.len(),
            forall|j: int| 0 <= j < i ==> kinds@[j] != k,
        decreases kinds.len() - i,
    {
        if kinds[i] == k {
            return true;
        }
        i += 1;
    }
    false
}

fn optional_matches(want: &Option<String>, have: &Option<String>) -> (r: bool)
    ensures
        r == (opt_view(*want) matches Some(p) ==> opt_view(*have) == Some(p)),
{
    match want {
        Some(p) => match have {
            Some(q) => str_eq(q.as_str(), p.as_str()),
            None => false,
        },
        None => true,
    }
}

/// Returns whether `doc` passes `filters` (ignoring the text query).
pub fn matches_filters(doc: &SearchDocument, filters: &SearchFilters) -> (r: bool)
    ensures
        r == passes(doc@, filters@),
{
    if filters.kinds.len() != 0 && !kinds_contain(&filters.kinds, doc.kind) {
        return false;
    }
    if !optional_matches(&filters.provider, &doc.provider) {
        return false;
    }
    if !optional_matches(&filters.model, &doc.model) {
        return false;
    }
    if let Some(after) = filters.created_after_ms {
        if doc.created_at < after {
            return false;
        }
    }
    if let Some(before) = filters.created_before_ms {
        if doc.created_at > before {
            return false;
        }
    }
    true
}

fn opt_owned(o: Option<&str>) -> (r: Option<String>)
    ensures
        opt_view(r) == opt_str_view(o),
{
    match o {
        Some(s) => Some(owned(s)),
        None => None,
    }
}

fn opt_clone(o: &Option<String>) -> (r: Option<String>)
    ensures
        opt_view(r) == opt_view(*o),
{
    match o {
        Some(s) => Some(s.clone()),
        None => None,
    }
}

/// Copy of a document with the same view.
fn copy_doc(d: &SearchDocument) -> (r: SearchDocument)
    ensures
        r@ == d@,
{
    SearchDocument {
        kind: d.kind,
        id: d.id.clone(),
        title: d.title.clone(),
        body: d.body.clone(),
        thread_id: opt_clone(&d.thread_id),
        message_id: opt_clone(&d.message_id),
        provider: opt_clone(&d.provider),
        model: opt_clone(&d.model),
        created_at: d.created_at,
    }
}

/// Builds searchable documents for one thread's title (no messages).
pub fn thread_title_document(
    thread_id: &str,
    title: &str,
    provider: Option<&str>,
    model: Option<&str>,
    created_at: i64,
) -> (r: SearchDocument)
    ensures
        r@ == (DocView {
            kind: SearchContentKind::Thread,
            id: "thread:"@ + thread_id@,
            title: title@,
            body: Seq::empty(),
            thread_id: Some(thread_id@),
            message_id: None,
            provider: opt_str_view(provider),
            model: opt_str_view(model),
            created_at,
        }),
{
    SearchDocument {
        kind: SearchContentKind::Thread,
        id: concat2("thread:", thread_id),
        title: owned(title),
        body: String::new(),
        thread_id: Some(owned(thread_id)),
        message_id: None,
        provider: opt_owned(provider),
        model: opt_owned(model),
        created_at,
    }
}

/// Builds a searchable document for one message within a thread.
pub fn thread_message_document(
    thread_id: &str,
    message_id: &str,
    thread_title: &str,
    content: &str,
    provider: Option<&str>,
    model: Option<&str>,
    created_at: i64,
) -> (r: SearchDocument)
    ensures
        r@ == (DocView {
            kind: SearchContentKind::Thread,
            id: message_id@,
            title: thread_title@,
            body: content@,
            thread_id: Some(thread_id@),
            message_id: Some(message_id@),
            provider: opt_str_view(provider),
            model: opt_str_view(model),
            created_at,
        }),
{
    SearchDocument {
        kind: SearchContentKind::Thread,
        id: owned(message_id),
        title: owned(thread_title),
        body: owned(content),
        thread_id: Some(owned(thread_id)),
        message_id: Some(owned(message_id)),
        provider: opt_owned(provider),
        model: opt_owned(model),
        created_at,
    }
}

/// Builds a searchable artifact document.
pub fn artifact_document(
    id: &str,
    title: &str,
    content: &str,
    thread_id: &str,
    created_at: i64,
) -> (r: SearchDocument)
    ensures
        r@ == (DocView {
            kind: SearchContentKind::Artifact,
            id: id@,
            title: title@,
            body: content@,
            thread_id: Some(thread_id@),
            message_id: None,
            provider: None,
            model: None,
            created_at,
        }),
{
    SearchDocument {
        kind: SearchContentKind::Artifact,
        id: owned(id),
        title: owned(title),
        body: owned(content),
        thread_id: Some(owned(thread_id)),
        message_id: None,
        provider: None,
        model: None,
        created_at,
    }
}

/// Builds a searchable memory document.
pub fn memory_document(id: &str, title: &str, content: &str, created_at: i64) -> (r: SearchDocument)
    ensures
        r@ == (DocView {
            kind: SearchContentKind::Memory,
            id: id@,
            title: title@,
            body: content@,
            thread_id: None,
            message_id: None,
            provider: None,
            model: None,
            created_at,
        }),
{
    SearchDocument {
        kind: SearchContentKind::Memory,
        id: owned(id),
        title: owned(title),
        body: owned(content),
        thread_id: None,
        message_id: None,
        provider: None,
        model: None,
        created_at,
    }
}

/// ASCII case-insensitive containment of `n` in `h`.
pub open spec fn contains_ci_spec(h: Seq<char>, n: Seq<char>) -> bool {
    contains(lower_seq(h), lower_seq(n))
}

fn contains_ci(haystack: &str, needle: &str) -> (r: bool)
    ensures
        r == contains_ci_spec(haystack@, needle@),
{
    let h = chars_of(haystack);
    let n = chars_of(needle);
    let lh = lower_chars(h.as_slice());
    let ln = lower_chars(n.as_slice());
    contains_chars(lh.as_slice(), ln.as_slice())
}

/// Least char index from `i` on whose byte offset in `s` is at least `b`
/// (`s.len()` when there is none).
pub open spec fn boundary_from(s: Seq<char>, b: int, i: int) -> int
    decreases s.len() - i,
{
    if i >= s.len() || utf8_len(s.take(i)) >= b {
        i
    } else {
        boundary_from(s, b, i + 1)
    }
}

/// Char index of the first ASCII case-insensitive match of `needle` in `text`.
pub open spec fn match_index(text: Seq<char>, needle: Seq<char>) -> int {
    choose|p: int| first_occurrence(lower_seq(text), lower_seq(needle), p)
}

/// The ellipsis char.
pub open spec fn ellipsis() -> Seq<char> {
    seq!['\u{2026}']
}

/// Excerpt of `text` around the first case-insensitive match of `needle`:
/// from 24 bytes before the match to 24 bytes after it, widened to char
/// boundaries, with an ellipsis on each cut side. Without a match, the first
/// 80 chars (with an ellipsis when cut).
pub open spec fn snippet_of(text: Seq<char>, needle: Seq<char>) -> Seq<char> {
    if !contains(lower_seq(text), lower_seq(needle)) {
        if text.len() > 80 {
            text.take(80) + ellipsis()
        } else {
            text
        }
    } else {
        let p = match_index(text, needle);
        let pos = utf8_len(text.take(p)) as int;
        let total = utf8_len(text) as int;
        let sb = if pos >= 24 {
            pos - 24
        } else {
            0
        };
        let eb = if pos + utf8_len(needle) + 24 <= total {
            pos + utf8_len(needle) + 24
        } else {
            total
        };
        let s = boundary_from(text, sb, 0);
        let e = boundary_from(text, eb, 0);
        (if s > 0 {
            ellipsis()
        } else {
            Seq::empty()
        }) + text.subrange(s, e) + (if e < text.len() {
            ellipsis()
        } else {
            Seq::empty()
        })
    }
}

proof fn lemma_boundary_bounds(s: Seq<char>, b: int, i: int)
    requires
        0 <= i <= s.len(),
    ensures
        i <= boundary_from(s, b, i) <= s.len(),
    decreases s.len() - i,
{
    if !(i >= s.len() || utf8_len(s.take(i)) >= b) {
        lemma_boundary_bounds(s, b, i + 1);
    }
}

proof fn lemma_boundary_mono(s: Seq<char>, b1: int, b2: int, i: int)
    requires
        0 <= i <= s.len(),
        b1 <= b2,
    ensures
        boundary_from(s, b1, i) <= boundary_from(s, b2, i),
    decreases s.len() - i,
{
    if i >= s.len() || utf8_len(s.take(i)) >= b2 {
    } else if utf8_len(s.take(i)) >= b1 {
        lemma_boundary_bounds(s, b2, i + 1);
    } else {
        lemma_boundary_mono(s, b1, b2, i + 1);
    }
}

proof fn lemma_first_occurrence_unique(s: Seq<char>, n: Seq<char>, i: int, j: int)
    requires
        first_occurrence(s, n, i),
        first_occurrence(s, n, j),
    ensures
        i == j,
{
}

fn boundary_index(s: &[char], b: u128) -> (r: usize)
    ensures
        r == boundary_from(s@, b as int, 0),
        r <= s.len(),
{
    let mut i: usize = 0;
    let mut bytes: u128 = 0;
    assert(s@.take(0) =~= Seq::<char>::empty());
    proof {
        lemma_boundary_bounds(s@, b as int, 0);
    }
    while i < s.len() && bytes < b
        invariant
            i <= s.len(),
            bytes == utf8_len(s@.take(i as int)),
            bytes <= 4 * i,
            boundary_from(s@, b as int, 0) == boundary_from(s@, b as int, i as int),
        decreases s.len() - i,
    {
        proof {
            lemma_utf8_len_take_step(s@, i as int);
        }
        bytes = bytes + char_width(s[i]) as u128;
        i += 1;
    }
    i
}

fn snippet_around(text: &str, needle: &str) -> (r: String)
    ensures
        r@ == snippet_of(text@, needle@),
{
    let tv = chars_of(text);
    let nv = chars_of(needle);
    let lt = lower_chars(tv.as_slice());
    let ln = lower_chars(nv.as_slice());
    let mut out: Vec<char> = Vec::new();
    match find_chars(lt.as_slice(), ln.as_slice()) {
        None => {
            let k: usize = if tv.len() > 80 {
                80
            } else {
                tv.len()
            };
            let mut i: usize = 0;
            while i < k
                invariant
                    i <= k <= tv.len(),
                    out@ == tv@.take(i as int),
                decreases k - i,
            {
                out.push(tv[i]);
                assert(tv@.take(i as int).push(tv@[i as int]) =~= tv@.take(i + 1));
                i += 1;
            }
            if tv.len() > 80 {
                out.push('\u{2026}');
                assert(out@ =~= tv@.take(80) + ellipsis());
            } else {
                assert(out@ =~= tv@);
            }
        },
        Some(p) => {
            let n = ln.len();
            assert(occurs_at(lt@, ln@, p as int));
            assert(p + n <= tv.len());
            proof {
                lemma_first_occurrence_unique(lt@, ln@, p as int, match_index(text@, needle@));
                let sub = tv@.subrange(p as int, p + n);
                assert(lower_seq(sub) =~= lt@.subrange(p as int, p + n));
                lemma_utf8_len_lower(sub);
                lemma_utf8_len_lower(nv@);
                assert(tv@.take(p + n) =~= tv@.take(p as int) + sub);
                lemma_utf8_len_concat(tv@.take(p as int), sub);
                lemma_utf8_len_take_le(tv@, p + n);
            }
            let pos = byte_offset(tv.as_slice(), p);
            let match_end = byte_offset(tv.as_slice(), p + n);
            let total = byte_offset(tv.as_slice(), tv.len());
            proof {
                assert(tv@.take(tv@.len() as int) =~= tv@);
            }
            let sb: u128 = if pos >= 24 {
                pos - 24
            } else {
                0
            };
            let eb: u128 = if total - match_end >= 24 {
                match_end + 24
            } else {
                total
            };
            let s = boundary_index(tv.as_slice(), sb);
            let e = boundary_index(tv.as_slice(), eb);
            proof {
                lemma_boundary_mono(tv@, sb as int, eb as int, 0);
            }
            if s > 0 {
                out.push('\u{2026}');
            }
            let ghost head = out@;
            let mut i: usize = s;
            while i < e
                invariant
                    s <= i <= e <= tv.len(),
                    out@ == head + tv@.subrange(s as int, i as int),
                decreases e - i,
            {
                out.push(tv[i]);
                assert(tv@.subrange(s as int, i as int).push(tv@[i as int]) =~= tv@.subrange(
                    s as int,
                    i + 1,
                ));
                i += 1;
            }
            if e < tv.len() {
                out.push('\u{2026}');
            }
            proof {
                if s > 0 {
                    assert(head =~= ellipsis());
                } else {
                    assert(head =~= Seq::<char>::empty());
                }
                let mid = head + tv@.subrange(s as int, e as int);
                if e < tv.len() {
                    assert(out@ =~= mid + ellipsis());
                } else {
                    assert(out@ =~= mid + Seq::<char>::empty());
                }
            }
        },
    }
    string_of(out.as_slice())
}

/// Rank score: 100 for a title match plus 10 for a body match.
pub open spec fn score_of(in_title: bool, in_body: bool) -> u32 {
    ((if in_title {
        100int
    } else {
        0
    }) + (if in_body {
        10int
    } else {
        0
    })) as u32
}

/// Whether a document is a hit for `needle` under the filters.
pub open spec fn is_hit(d: DocView, f: FiltersView, needle: Seq<char>) -> bool {
    passes(d, f) && (contains_ci_spec(d.title, needle) || contains_ci_spec(d.body, needle))
}

/// The hit for a matching document: score and snippet (the title when only
/// the title matches, otherwise an excerpt of the body).
pub open spec fn hit_of(d: DocView, needle: Seq<char>) -> HitView {
    let t = contains_ci_spec(d.title, needle);
    let b = contains_ci_spec(d.body, needle);
    HitView {
        doc: d,
        snippet: if t && !b {
            d.title
        } else if b {
            snippet_of(d.body, needle)
        } else {
            d.title
        },
        score: score_of(t, b),
    }
}

/// Hits among the first `k` documents, in document order.
pub open spec fn raw_hits(docs: Seq<DocView>, f: FiltersView, needle: Seq<char>, k: int) -> Seq<
    HitView,
>
    decreases k,
{
    if k <= 0 {
        Seq::empty()
    } else {
        let rest = raw_hits(docs, f, needle, k - 1);
        if is_hit(docs[k - 1], f, needle) {
            rest.push(hit_of(docs[k - 1], needle))
        } else {
            rest
        }
    }
}

/// Whether hit `x` is listed before hit `y`: higher score first, then older
/// first, then smaller id first.
pub open spec fn ranks_before(x: HitView, y: HitView) -> bool {
    ||| x.score > y.score
    ||| (x.score == y.score && x.doc.created_at < y.doc.created_at)
    ||| (x.score == y.score && x.doc.created_at == y.doc.created_at && lex_lt(x.doc.id, y.doc.id, 0))
}

/// Stable insertion of `x` into ranked `s`: after every hit it does not rank before.
pub open spec fn insert_ranked(s: Seq<HitView>, x: HitView) -> Seq<HitView>
    decreases s.len(),
{
    if s.len() == 0 {
        seq![x]
    } else if ranks_before(x, s.last()) {
        insert_ranked(s.drop_last(), x).push(s.last())
    } else {
        s.push(x)
    }
}

/// Stable sort of hits by [`ranks_before`].
pub open spec fn rank(s: Seq<HitView>) -> Seq<HitView>
    decreases s.len(),
{
    if s.len() == 0 {
        s
    } else {
        insert_ranked(rank(s.drop_last()), s.last())
    }
}

/// What [`search`] returns: nothing for a blank query, otherwise the hits for
/// the trimmed query, ranked.
pub open spec fn search_result(query: Seq<char>, docs: Seq<DocView>, f: FiltersView) -> Seq<
    HitView,
> {
    if trim(query).len() == 0 {
        Seq::empty()
    } else {
        rank(raw_hits(docs, f, trim(query), docs.len() as int))
    }
}

/// Index at which [`insert_ranked`] places `x`.
pub open spec fn insert_pos(s: Seq<HitView>, x: HitView) -> int
    decreases s.len(),
{
    if s.len() == 0 || !ranks_before(x, s.last()) {
        s.len() as int
    } else {
        insert_pos(s.drop_last(), x)
    }
}

proof fn lemma_insert_ranked_at(s: Seq<HitView>, x: HitView)
    ensures
        0 <= insert_pos(s, x) <= s.len(),
        insert_ranked(s, x) == s.take(insert_pos(s, x)).push(x) + s.skip(insert_pos(s, x)),
    decreases s.len(),
{
    let p = insert_pos(s, x);
    if s.len() == 0 || !ranks_before(x, s.last()) {
        assert(s.take(p).push(x) + s.skip(p) =~= s.push(x));
        if s.len() == 0 {
            assert(seq![x] =~= s.push(x));
        }
    } else {
        let t = s.drop_last();
        lemma_insert_ranked_at(t, x);
        assert(t.take(p) =~= s.take(p));
        assert(t.skip(p).push(s.last()) =~= s.skip(p));
        assert(insert_ranked(s, x) =~= s.take(p).push(x) + s.skip(p));
    }
}

fn id_before(a: &[char], b: &[char]) -> (r: bool)
    ensures
        r == lex_lt(a@, b@, 0),
{
    let mut i: usize = 0;
    while i < a.len() && i < b.len() && a[i] == b[i]
        invariant
            i <= a.len(),
            i <= b.len(),
            lex_lt(a@, b@, 0) == lex_lt(a@, b@, i as int),
        decreases a.len() - i,
    {
        i += 1;
    }
    if i >= a.len() {
        i < b.len()
    } else if i >= b.len() {
        false
    } else {
        a[i] < b[i]
    }
}

fn hit_before(x: &SearchHit, y: &SearchHit) -> (r: bool)
    ensures
        r == ranks_before(x@, y@),
{
    if x.score != y.score {
        return x.score > y.score;
    }
    if x.document.created_at != y.document.created_at {
        return x.document.created_at < y.document.created_at;
    }
    let a = chars_of(x.document.id.as_str());
    let b = chars_of(y.document.id.as_str());
    id_before(a.as_slice(), b.as_slice())
}

fn insert_hit(ranked: &mut Vec<SearchHit>, h: SearchHit)
    ensures
        hits_view(final(ranked)@) == insert_ranked(hits_view(old(ranked)@), h@),
{
    let ghost s = hits_view(ranked@);
    let mut j: usize = ranked.len();
    assert(s.take(j as int) =~= s);
    while j > 0 && hit_before(&h, &ranked[j - 1])
        invariant
            j <= ranked.len(),
            s == hits_view(ranked@),
            insert_pos(s, h@) == insert_pos(s.take(j as int), h@),
        decreases j,
    {
        assert(s.take(j as int).drop_last() =~= s.take(j - 1));
        assert(s.take(j as int).last() == ranked@[j - 1]@);
        j -= 1;
    }
    proof {
        if j > 0 {
            assert(s.take(j as int).last() == ranked@[j - 1]@);
        }
        assert(insert_pos(s.take(j as int), h@) == j);
        lemma_insert_ranked_at(s, h@);
    }
    let ghost hv = h@;
    ranked.insert(j, h);
    proof {
        assert(hits_view(ranked@) =~= s.take(j as int).push(hv) + s.skip(j as int));
    }
}

/// Runs a case-insensitive substring search with ranking and filters.
///
/// Empty / whitespace-only queries return no hits (search is opt-in).
pub fn search(query: &str, docs: &[SearchDocument], filters: &SearchFilters) -> (r: Vec<SearchHit>)
    ensures
        hits_view(r@) == search_result(query@, docs_view(docs@), filters@),
{
    let nv = trim_str(query);
    if nv.len() == 0 {
        let empty: Vec<SearchHit> = Vec::new();
        assert(hits_view(empty@) =~= Seq::<HitView>::empty());
        return empty;
    }
    let needle = string_of(nv.as_slice());
    let ghost dv = docs_view(docs@);
    let mut hits: Vec<SearchHit> = Vec::new();
    let mut i: usize = 0;
    while i < docs.len()
        invariant
            i <= docs.len(),
            dv == docs_view(docs@),
            needle@ == trim(query@),
            hits_view(hits@) == rank(raw_hits(dv, filters@, needle@, i as int)),
        decreases docs.len() - i,
    {
        let doc = &docs[i];
        proof {
            assert(dv[i as int] == doc@);
        }
        if matches_filters(doc, filters) {
            let in_title = contains_ci(doc.title.as_str(), needle.as_str());
            let in_body = contains_ci(doc.body.as_str(), needle.as_str());
            if in_title || in_body {
                let score: u32 = (if in_title {
                    100
                } else {
                    0
                }) + (if in_body {
                    10
                } else {
                    0
                });
                let snippet = if in_title && !in_body {
                    doc.title.clone()
                } else if in_body {
                    snippet_around(doc.body.as_str(), needle.as_str())
                } else {
                    doc.title.clone()
                };
                let hit = SearchHit { document: copy_doc(doc), snippet, score };
                proof {
                    assert(hit@ == hit_of(doc@, needle@));
                    let raw = raw_hits(dv, filters@, needle@, i as int);
                    assert(raw_hits(dv, filters@, needle@, i + 1) == raw.push(hit@));
                    assert(raw.push(hit@).drop_last() =~= raw);
                }
                insert_hit(&mut hits, hit);
            }
        }
        i += 1;
    }
    proof {
        assert(dv.len() == docs@.len());
    }
    hits
}

/// Hits ordered so that none is listed after a hit it ranks before.
pub open spec fn is_ranked(s: Seq<HitView>) -> bool {
    forall|i: int, j: int| 0 <= i < j < s.len() ==> !ranks_before(#[trigger] s[j], #[trigger] s[i])
}

proof fn lemma_ranks_asym(x: HitView, y: HitView)
    requires
        ranks_before(x, y),
    ensures
        !ranks_before(y, x),
{
    if x.score == y.score && x.doc.created_at == y.doc.created_at {
        lemma_lex_asym(x.doc.id, y.doc.id, 0);
    }
}

proof fn lemma_ranks_neg_trans(a: HitView, b: HitView, c: HitView)
    requires
        ranks_before(c, a),
    ensures
        ranks_before(c, b) || ranks_before(b, a),
{
    if c.score == a.score && c.doc.created_at == a.doc.created_at && b.score == c.score
        && b.doc.created_at == c.doc.created_at {
        lemma_lex_neg_trans(a.doc.id, b.doc.id, c.doc.id, 0);
    }
}

proof fn lemma_insert_pos_facts(s: Seq<HitView>, x: HitView)
    ensures
        0 <= insert_pos(s, x) <= s.len(),
        forall|k: int| insert_pos(s, x) <= k < s.len() ==> ranks_before(x, #[trigger] s[k]),
        insert_pos(s, x) > 0 ==> !ranks_before(x, s[insert_pos(s, x) - 1]),
    decreases s.len(),
{
    if s.len() > 0 && ranks_before(x, s.last()) {
        let t = s.drop_last();
        lemma_insert_pos_facts(t, x);
        assert forall|k: int| insert_pos(s, x) <= k < s.len() implies ranks_before(
            x,
            #[trigger] s[k],
        ) by {
            if k < t.len() {
                assert(s[k] == t[k]);
            }
        }
        if insert_pos(s, x) > 0 {
            assert(s[insert_pos(s, x) - 1] == t[insert_pos(s, x) - 1]);
        }
    }
}

proof fn lemma_insert_ranked_keeps(s: Seq<HitView>, x: HitView)
    requires
        is_ranked(s),
    ensures
        is_ranked(insert_ranked(s, x)),
        insert_ranked(s, x).to_multiset() == s.to_multiset().insert(x),
{
    lemma_insert_ranked_at(s, x);
    lemma_insert_pos_facts(s, x);
    let p = insert_pos(s, x);
    let r = insert_ranked(s, x);
    assert(r =~= s.insert(p, x));
    vstd::seq_lib::to_multiset_insert(s, p, x);
    assert forall|i: int, j: int| 0 <= i < j < r.len() implies !ranks_before(
        #[trigger] r[j],
        #[trigger] r[i],
    ) by {
        if j < p {
            assert(r[i] == s[i] && r[j] == s[j]);
        } else if j == p {
            assert(r[i] == s[i] && r[j] == x);
            if i < p - 1 {
                assert(!ranks_before(s[p - 1], s[i]));
                if ranks_before(x, s[i]) {
                    lemma_ranks_neg_trans(s[i], s[p - 1], x);
                }
            }
        } else if i == p {
            assert(r[i] == x && r[j] == s[j - 1]);
            assert(ranks_before(x, s[j - 1]));
            lemma_ranks_asym(x, s[j - 1]);
        } else if i < p {
            assert(r[i] == s[i] && r[j] == s[j - 1]);
        } else {
            assert(r[i] == s[i - 1] && r[j] == s[j - 1]);
        }
    }
}

proof fn lemma_rank_keeps(s: Seq<HitView>)
    ensures
        is_ranked(rank(s)),
        rank(s).to_multiset() == s.to_multiset(),
    decreases s.len(),
{
    if s.len() == 0 {
        assert(is_ranked(rank(s)));
    } else {
        lemma_rank_keeps(s.drop_last());
        lemma_insert_ranked_keeps(rank(s.drop_last()), s.last());
        assert(s.drop_last().push(s.last()) =~= s);
        vstd::seq_lib::to_multiset_build(s.drop_last(), s.last());
    }
}

/// Search results are ranked: higher scores first, then older documents,
/// then smaller ids; and they are exactly the matching documents' hits,
/// each once, in some order.
pub proof fn law_search_results_ranked(query: Seq<char>, docs: Seq<DocView>, f: FiltersView)
    requires
        trim(query).len() > 0,
    ensures
        is_ranked(search_result(query, docs, f)),
        search_result(query, docs, f).to_multiset() == raw_hits(
            docs,
            f,
            trim(query),
            docs.len() as int,
        ).to_multiset(),
{
    lemma_rank_keeps(raw_hits(docs, f, trim(query), docs.len() as int));
}

/// Title matches outrank body-only matches: every hit that matches in its
/// title is listed before every hit that matches only in its body.
pub proof fn law_title_matches_first(query: Seq<char>, docs: Seq<DocView>, f: FiltersView, i: int, j: int)
    requires
        trim(query).len() > 0,
        0 <= i < search_result(query, docs, f).len(),
        0 <= j < search_result(query, docs, f).len(),
        search_result(query, docs, f)[i].score >= 100,
        search_result(query, docs, f)[j].score < 100,
    ensures
        i < j,
{
    let r = search_result(query, docs, f);
    law_search_results_ranked(query, docs, f);
    if j < i {
        assert(!ranks_before(r[i], r[j]));
    }
}

/// Hits among the first `k` of `hits` whose document has kind `kind`, in order.
pub open spec fn of_kind(hits: Seq<SearchHit>, kind: SearchContentKind, k: int) -> Seq<SearchHit>
    decreases k,
{
    if k <= 0 {
        Seq::empty()
    } else {
        let rest = of_kind(hits, kind, k - 1);
        if hits[k - 1].document.kind == kind {
            rest.push(hits[k - 1])
        } else {
            rest
        }
    }
}

/// The non-empty groups of `hits` for the first `n` kinds of
/// Threads, Artifacts, Memories, in that order.
pub open spec fn groups_upto(hits: Seq<SearchHit>, n: int) -> Seq<(SearchContentKind, Seq<SearchHit>)>
    decreases n,
{
    if n <= 0 {
        Seq::empty()
    } else {
        let rest = groups_upto(hits, n - 1);
        let kind = kind_order()[n - 1];
        let g = of_kind(hits, kind, hits.len() as int);
        if g.len() > 0 {
            rest.push((kind, g))
        } else {
            rest
        }
    }
}

/// Display order of the result groups.
pub open spec fn kind_order() -> Seq<SearchContentKind> {
    seq![SearchContentKind::Thread, SearchContentKind::Artifact, SearchContentKind::Memory]
}

/// Views of grouped hits.
pub open spec fn groups_view(g: Seq<(SearchContentKind, Vec<&SearchHit>)>) -> Seq<
    (SearchContentKind, Seq<SearchHit>),
> {
    g.map_values(|p: (SearchContentKind, Vec<&SearchHit>)| (p.0, p.1@.map_values(|h: &SearchHit| *h)))
}

fn hits_of_kind<'a>(hits: &'a [SearchHit], kind: SearchContentKind) -> (r: Vec<&'a SearchHit>)
    ensures
        r@.map_values(|h: &SearchHit| *h) == of_kind(hits@, kind, hits@.len() as int),
{
    let mut out: Vec<&SearchHit> = Vec::new();
    let mut i: usize = 0;
    while i < hits.len()
        invariant
            i <= hits.len(),
            out@.map_values(|h: &SearchHit| *h) == of_kind(hits@, kind, i as int),
        decreases hits.len() - i,
    {
        let h = &hits[i];
        if h.document.kind == kind {
            let ghost prev = out@;
            out.push(h);
            assert(out@.map_values(|h: &SearchHit| *h) =~= prev.map_values(|h: &SearchHit| *h).push(
                *h,
            ));
        }
        i += 1;
    }
    out
}

/// Groups hits in display order: Threads → Artifacts → Memories.
pub fn group_hits_by_kind(hits: &[SearchHit]) -> (r: Vec<(SearchContentKind, Vec<&SearchHit>)>)
    ensures
        groups_view(r@) == groups_upto(hits@, 3),
{
    let order = [SearchContentKind::Thread, SearchContentKind::Artifact, SearchContentKind::Memory];
    let mut out: Vec<(SearchContentKind, Vec<&SearchHit>)> = Vec::new();
    let mut k: usize = 0;
    assert(order@ =~= kind_order());
    while k < 3
        invariant
            k <= 3,
            order@ == kind_order(),
            groups_view(out@) == groups_upto(hits@, k as int),
        decreases 3 - k,
    {
        let kind = order[k];
        let group = hits_of_kind(hits, kind);
        if group.len() > 0 {
            let ghost prev = out@;
            let ghost gv = group@.map_values(|h: &SearchHit| *h);
            out.push((kind, group));
            assert(groups_view(out@) =~= groups_view(prev).push((kind, gv)));
        }
        k += 1;
    }
    out
}

/// A non-empty kinds filter admits exactly the documents whose kind is one
/// of its kinds, wherever it stands in the list; the other filters apply as
/// they would without a kinds filter. An empty kinds filter admits every kind.
pub proof fn law_kind_filter_admits_every_listed_kind(d: DocView, f: FiltersView)
    ensures
        f.kinds.len() > 0 ==> (passes(d, f) <==> (
            (exists|i: int| 0 <= i < f.kinds.len() && f.kinds[i] == d.kind)
            && passes(d, FiltersView { kinds: Seq::empty(), ..f })
        )),
        f.kinds.len() == 0 ==> passes(d, f) == passes(
            d,
            FiltersView { kinds: seq![d.kind], ..f },
        ),
        forall|i: int| 0 <= i < f.kinds.len() && #[trigger] f.kinds[i] == d.kind ==> passes(d, f)
            == passes(d, FiltersView { kinds: Seq::empty(), ..f }),
{
    assert(seq![d.kind][0] == d.kind);
}

} // verus!
