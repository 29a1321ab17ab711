//! Memory management presentation: enable/disable, profile group, context indicator.

use crate::artifacts_panel::snippet_of;
use crate::text::{
    dec, dec_padded, div_floor, fmt_usize, join, join_strings, owned, push_dec_padded, string_of,
    strings_view,
};
use vstd::prelude::*;

verus! {

/// User-visible label for the profile memory group.
pub const PROFILE_GROUP_LABEL: &'static str = "Profile";

/// User-visible label for regular (non-profile) memories.
pub const REGULAR_GROUP_LABEL: &'static str = "Memories";

/// Maximum characters shown in a memory preview snippet.
pub const MEMORY_SNIPPET_CHARS: usize = 100;

/// Organizational group for a memory.
#[derive(Debug, Clone, Copy, PartialEq, Eq, Hash, Structural)]
pub enum MemoryGroup {
    /// Always-on user profile context (preferences, role, identity).
    Profile,
    /// Regular memory; not auto-injected into provider requests.
    Regular,
}

/// Section header text of a group.
pub open spec fn group_text(g: MemoryGroup) -> Seq<char> {
    match g {
        MemoryGroup::Profile => PROFILE_GROUP_LABEL@,
        MemoryGroup::Regular => REGULAR_GROUP_LABEL@,
    }
}

impl MemoryGroup {
    /// Section header for grouped lists.
    pub fn label(self) -> (r: &'static str)
        ensures
            r@ == group_text(self),
    {
        match self {
            MemoryGroup::Profile => PROFILE_GROUP_LABEL,
            MemoryGroup::Regular => REGULAR_GROUP_LABEL,
        }
    }
}

/// One memory row for management UI and context selection.
#[derive(Debug, Clone, PartialEq, Eq)]
pub struct MemoryListItem {
    /// Stable memory id.
    pub id: String,
    /// Display title.
    pub title: String,
    /// Full content body.
    pub content: String,
    /// Whether the memory may be included in provider context.
    pub enabled: bool,
    /// Profile vs regular grouping.
    pub group: MemoryGroup,
    /// Creation time (Unix ms).
    pub created_at: i64,
}

impl MemoryListItem {
    /// Builds a list item from persisted memory fields.
    pub fn from_fields(
        id: &str,
        title: &str,
        content: &str,
        enabled: bool,
        is_profile: bool,
        created_at: i64,
    ) -> (r: Self)
        ensures
            r.id@ == id@,
            r.title@ == title@,
            r.content@ == content@,
            r.enabled == enabled,
            r.group == (if is_profile {
                MemoryGroup::Profile
            } else {
                MemoryGroup::Regular
            }),
            r.created_at == created_at,
    {
        MemoryListItem {
            id: owned(id),
            title: owned(title),
            content: owned(content),
            enabled,
            group: if is_profile {
                MemoryGroup::Profile
            } else {
                MemoryGroup::Regular
            },
            created_at,
        }
    }
}

/// Preview card for the memory management list.
#[derive(Debug, Clone, PartialEq, Eq)]
pub struct MemoryPreviewCard {
    /// Memory id.
    pub id: String,
    /// Display title.
    pub title: String,
    /// Truncated content snippet.
    pub snippet: String,
    /// Whether enabled for context.
    pub enabled: bool,
    /// `"Enabled"` or `"Disabled"`.
    pub status_label: &'static str,
    /// Organizational group.
    pub group: MemoryGroup,
    /// Group badge label.
    pub group_label: &'static str,
    /// Convenience mirror of `group == Profile`.
    pub is_profile: bool,
    /// Human-readable created date.
    pub created_label: String,
}

/// Composer/chat indicator when profile memories will be sent with the next request.
#[derive(Debug, Clone, PartialEq, Eq)]
pub struct MemoryContextIndicator {
    /// Number of enabled profile memories.
    pub active_count: usize,
    /// Compact label (e.g. `2 memories active`).
    pub summary_label: String,
    /// Titles of active memories joined for detail/tooltip.
    pub detail_label: String,
}

/// UI open/closed state for the memory management page.
#[derive(Debug, Clone, PartialEq, Eq, Default)]
pub struct MemoryManagementState {
    open: bool,
}

impl View for MemoryManagementState {
    type V = bool;

    /// Whether the page is open.
    closed spec fn view(&self) -> bool {
        self.open
    }
}

impl MemoryManagementState {
    /// A closed management page.
    pub fn new() -> (s: Self)
        ensures
            !s@,
    {
        MemoryManagementState { open: false }
    }

    /// Whether the management page is visible.
    pub fn is_open(&self) -> (r: bool)
        ensures
            r == self@,
    {
        self.open
    }

    /// Opens the management page.
    pub fn open(&mut self)
        ensures
            final(self)@,
    {
        self.open = true;
    }

    /// Closes the management page.
    pub fn close(&mut self)
        ensures
            !final(self)@,
    {
        self.open = false;
    }

    /// Toggles visibility.
    pub fn toggle(&mut self)
        ensures
            final(self)@ == !old(self)@,
    {
        self.open = !self.open;
    }
}

// ---------------------------------------------------------------------------
// Civil dates
// ---------------------------------------------------------------------------

/// Era (400-year cycle) used by the day-to-date conversion for shifted day `z`.
pub open spec fn civil_era(z: int) -> int {
    (if z >= 0 {
        z
    } else {
        z - 146096
    }) / 146097
}

/// Day of era for days since 1970-01-01.
pub open spec fn civil_doe(days: int) -> int {
    let z = days + 719468;
    z - civil_era(z) * 146097
}

/// Year of era for a day of era.
pub open spec fn civil_yoe(doe: int) -> int {
    (doe - doe / 1460 + doe / 36524 - doe / 146096) / 365
}

/// Day of the (March-based) year for a day of era.
pub open spec fn civil_doy(doe: int) -> int {
    let yoe = civil_yoe(doe);
    doe - (365 * yoe + yoe / 4 - yoe / 100)
}

/// `(year, month, day)` for days since 1970-01-01, by the era/day-of-era
/// decomposition of the proleptic Gregorian calendar.
pub open spec fn civil_from_days(days: int) -> (int, int, int) {
    let z = days + 719468;
    let era = civil_era(z);
    let doe = civil_doe(days);
    let yoe = civil_yoe(doe);
    let y = yoe + era * 400;
    let doy = civil_doy(doe);
    let mp = (5 * doy + 2) / 153;
    let d = doy - (153 * mp + 2) / 5 + 1;
    let m = if mp < 10 {
        mp + 3
    } else {
        mp - 9
    };
    (if m <= 2 {
        y + 1
    } else {
        y
    }, m, d)
}

/// Days since 1970-01-01 (UTC) of a Unix-ms timestamp.
pub open spec fn days_of_ms(ms: int) -> int {
    (ms / 1000) / 86400
}

proof fn lemma_doy_nonneg_bv(doe: u32)
    by (bit_vector)
    requires
        doe < 292193,
    ensures
        365u32 * ((doe - doe / 1460 + doe / 36524 - doe / 146096) / 365) + ((doe - doe / 1460 + doe
            / 36524 - doe / 146096) / 365) / 4 - ((doe - doe / 1460 + doe / 36524 - doe / 146096)
            / 365) / 100 <= doe,
{
}

/// The day of the March-based year that the conversion computes is never
/// negative: the day of era lies in `0..=292192` (past `146096` only for days
/// before 0000-03-01, where the era is taken one lower).
proof fn lemma_civil_doy_nonneg(days: int)
    ensures
        0 <= civil_doe(days) <= 292192,
        civil_doy(civil_doe(days)) >= 0,
{
    let z = days + 719468;
    let doe = civil_doe(days);
    if z >= 0 {
        assert(civil_era(z) == z / 146097);
        assert(0 <= doe < 146097) by (nonlinear_arith)
            requires
                doe == z - (z / 146097) * 146097,
                z >= 0,
        ;
    } else {
        let adj = z - 146096;
        assert(civil_era(z) == adj / 146097);
        assert(146096 <= doe <= 292192) by (nonlinear_arith)
            requires
                doe == z - (adj / 146097) * 146097,
                adj == z - 146096,
        ;
    }
    lemma_doy_nonneg_bv(doe as u32);
}

/// `{:04}` rendering of a year (sign-aware zero padding).
pub open spec fn year_text(y: int) -> Seq<char> {
    if y < 0 {
        seq!['-'] + dec_padded((-y) as nat, 3)
    } else {
        dec_padded(y as nat, 4)
    }
}

/// `YYYY-MM-DD` text of a Unix-ms timestamp.
pub open spec fn created_date_text(ms: int) -> Seq<char> {
    let (y, m, d) = civil_from_days(days_of_ms(ms));
    year_text(y) + seq!['-'] + dec_padded(m as nat, 2) + seq!['-'] + dec_padded(d as nat, 2)
}

/// Formats a Unix-ms timestamp as a short UTC date (`YYYY-MM-DD`).
pub fn format_created_date(created_at_ms: i64) -> (r: String)
    ensures
        r@ == created_date_text(created_at_ms as int),
{
    let secs = div_floor(created_at_ms, 1000);
    let days = div_floor(secs, 86400);
    proof {
        assert(days as int == days_of_ms(created_at_ms as int));
        assert(-200000000000 < days < 200000000000) by (nonlinear_arith)
            requires
                days == (created_at_ms as int / 1000) / 86400,
                i64::MIN <= created_at_ms <= i64::MAX,
        ;
    }
    let z = days + 719468;
    let adj = if z >= 0 {
        z
    } else {
        z - 146096
    };
    let era = div_floor(adj, 146097);
    assert(era == civil_era(z as int));
    let doe_i = z - era * 146097;
    assert(doe_i == civil_doe(days as int));
    proof {
        lemma_civil_doy_nonneg(days as int);
    }
    let doe = doe_i as u64;
    let yoe = (doe - doe / 1460 + doe / 36524 - doe / 146096) / 365;
    assert(yoe == civil_yoe(doe as int));
    assert(yoe <= 800);
    let y: i64 = (yoe as i64) + era * 400;
    assert(civil_doy(doe as int) >= 0);
    let doy = doe - (365 * yoe + yoe / 4 - yoe / 100);
    assert(doy == civil_doy(doe as int));
    let mp = (5 * doy + 2) / 153;
    assert(153 * mp <= 5 * doy + 2);
    let d = doy - (153 * mp + 2) / 5 + 1;
    let m = if mp < 10 {
        mp + 3
    } else {
        mp - 9
    };
    let year = if m <= 2 {
        y + 1
    } else {
        y
    };
    let mut out: Vec<char> = Vec::new();
    if year < 0 {
        out.push('-');
        push_dec_padded(&mut out, (-year) as u64, 3);
    } else {
        push_dec_padded(&mut out, year as u64, 4);
    }
    out.push('-');
    push_dec_padded(&mut out, m, 2);
    out.push('-');
    push_dec_padded(&mut out, d, 2);
    assert(out@ =~= created_date_text(created_at_ms as int));
    string_of(out.as_slice())
}

// ---------------------------------------------------------------------------
// Cards and context
// ---------------------------------------------------------------------------

/// `card` is the preview card of `item`.
pub open spec fn is_preview_of(card: MemoryPreviewCard, item: MemoryListItem) -> bool {
    &&& card.id@ == item.id@
    &&& card.title@ == item.title@
    &&& card.snippet@ == snippet_of(item.content@, MEMORY_SNIPPET_CHARS as nat)
    &&& card.enabled == item.enabled
    &&& card.status_label@ == (if item.enabled {
        "Enabled"@
    } else {
        "Disabled"@
    })
    &&& card.group == item.group
    &&& card.group_label@ == group_text(item.group)
    &&& card.is_profile == (item.group == MemoryGroup::Profile)
    &&& card.created_label@ == created_date_text(item.created_at as int)
}

/// Builds a preview card from a list item.
pub fn memory_preview_card(item: &MemoryListItem) -> (r: MemoryPreviewCard)
    ensures
        is_preview_of(r, *item),
{
    MemoryPreviewCard {
        id: item.id.clone(),
        title: item.title.clone(),
        snippet: content_snippet(item.content.as_str(), MEMORY_SNIPPET_CHARS),
        enabled: item.enabled,
        status_label: if item.enabled {
            "Enabled"
        } else {
            "Disabled"
        },
        group: item.group,
        group_label: item.group.label(),
        is_profile: item.group == MemoryGroup::Profile,
        created_label: format_created_date(item.created_at),
    }
}

/// Truncates content for preview cards.
pub fn content_snippet(content: &str, max_chars: usize) -> (r: String)
    ensures
        r@ == snippet_of(content@, max_chars as nat),
{
    crate::artifacts_panel::content_snippet(content, max_chars)
}

/// Items of group `g`, in input order.
pub open spec fn items_in_group(items: Seq<MemoryListItem>, g: MemoryGroup) -> Seq<MemoryListItem>
    decreases items.len(),
{
    if items.len() == 0 {
        Seq::empty()
    } else {
        let rest = items_in_group(items.drop_last(), g);
        if items.last().group == g {
            rest.push(items.last())
        } else {
            rest
        }
    }
}

/// The groups that hold at least one item, Profile first.
pub open spec fn nonempty_groups(items: Seq<MemoryListItem>) -> Seq<MemoryGroup> {
    let p = if items_in_group(items, MemoryGroup::Profile).len() > 0 {
        seq![MemoryGroup::Profile]
    } else {
        Seq::empty()
    };
    if items_in_group(items, MemoryGroup::Regular).len() > 0 {
        p.push(MemoryGroup::Regular)
    } else {
        p
    }
}

fn cards_for_group(items: &[MemoryListItem], g: MemoryGroup) -> (r: Vec<MemoryPreviewCard>)
    ensures
        r@.len() == items_in_group(items@, g).len(),
        forall|j: int|
            0 <= j < r@.len() ==> is_preview_of(#[trigger] r@[j], items_in_group(items@, g)[j]),
{
    let mut out: Vec<MemoryPreviewCard> = Vec::new();
    let mut i: usize = 0;
    while i < items.len()
        invariant
            i <= items.len(),
            out@.len() == items_in_group(items@.take(i as int), g).len(),
            forall|j: int|
                0 <= j < out@.len() ==> is_preview_of(
                    #[trigger] out@[j],
                    items_in_group(items@.take(i as int), g)[j],
                ),
        decreases items.len() - i,
    {
        assert(items@.take(i + 1).drop_last() =~= items@.take(i as int));
        assert(items@.take(i + 1).last() == items@[i as int]);
        if items[i].group == g {
            let card = memory_preview_card(&items[i]);
            out.push(card);
        }
        i += 1;
    }
    assert(items@.take(items.len() as int) =~= items@);
    out
}

/// Groups cards with Profile section first, then Regular.
pub fn group_memory_cards(items: &[MemoryListItem]) -> (r: Vec<(MemoryGroup, Vec<MemoryPreviewCard>)>)
    ensures
        r@.len() == nonempty_groups(items@).len(),
        forall|i: int|
            0 <= i < r@.len() ==> {
                let g = nonempty_groups(items@)[i];
                &&& (#[trigger] r@[i]).0 == g
                &&& r@[i].1@.len() == items_in_group(items@, g).len()
                &&& forall|j: int|
                    0 <= j < r@[i].1@.len() ==> is_preview_of(
                        #[trigger] r@[i].1@[j],
                        items_in_group(items@, g)[j],
                    )
            },
{
    let mut out: Vec<(MemoryGroup, Vec<MemoryPreviewCard>)> = Vec::new();
    let profile = cards_for_group(items, MemoryGroup::Profile);
    if profile.len() > 0 {
        out.push((MemoryGroup::Profile, profile));
    }
    let regular = cards_for_group(items, MemoryGroup::Regular);
    if regular.len() > 0 {
        out.push((MemoryGroup::Regular, regular));
    }
    out
}

/// Enabled profile memories, in input order.
pub open spec fn active_items(items: Seq<MemoryListItem>) -> Seq<MemoryListItem>
    decreases items.len(),
{
    if items.len() == 0 {
        Seq::empty()
    } else {
        let rest = active_items(items.drop_last());
        if items.last().enabled && items.last().group == MemoryGroup::Profile {
            rest.push(items.last())
        } else {
            rest
        }
    }
}

/// Enabled profile memories that should be auto-injected into provider context.
pub fn active_memories_for_context(items: &[MemoryListItem]) -> (r: Vec<&MemoryListItem>)
    ensures
        r@.map_values(|m: &MemoryListItem| *m) == active_items(items@),
{
    let mut out: Vec<&MemoryListItem> = Vec::new();
    let mut i: usize = 0;
    while i < items.len()
        invariant
            i <= items.len(),
            out@.map_values(|m: &MemoryListItem| *m) == active_items(items@.take(i as int)),
        decreases items.len() - i,
    {
        assert(items@.take(i + 1).drop_last() =~= items@.take(i as int));
        assert(items@.take(i + 1).last() == items@[i as int]);
        let ghost before = out@;
        let m = &items[i];
        if m.enabled && m.group == MemoryGroup::Profile {
            out.push(m);
            assert(out@.map_values(|m: &MemoryListItem| *m) =~= before.map_values(
                |m: &MemoryListItem| *m,
            ).push(*m));
        }
        i += 1;
    }
    assert(items@.take(items.len() as int) =~= items@);
    out
}

/// Context entry text for one profile memory.
pub open spec fn memory_entry_text(m: MemoryListItem) -> Seq<char> {
    "[Profile memory: "@ + m.title@ + "]\n"@ + m.content@
}

/// Entry texts of a list of memories.
pub open spec fn entry_texts(items: Seq<MemoryListItem>) -> Seq<Seq<char>> {
    items.map_values(|m: MemoryListItem| memory_entry_text(m))
}

/// Titles of a list of memories.
pub open spec fn title_texts(items: Seq<MemoryListItem>) -> Seq<Seq<char>> {
    items.map_values(|m: MemoryListItem| m.title@)
}

/// Builds the system-context block for active profile memories.
pub fn memory_context_block(items: &[MemoryListItem]) -> (r: Option<String>)
    ensures
        match r {
            Some(b) => active_items(items@).len() > 0 && b@ == join(
                entry_texts(active_items(items@)),
                "\n\n"@,
            ),
            None => active_items(items@).len() == 0,
        },
{
    let active = active_memories_for_context(items);
    if active.len() == 0 {
        return None;
    }
    let ghost act = active_items(items@);
    let mut parts: Vec<String> = Vec::new();
    let mut i: usize = 0;
    while i < active.len()
        invariant
            i <= active.len(),
            active@.map_values(|m: &MemoryListItem| *m) == act,
            strings_view(parts@) == entry_texts(act.take(i as int)),
        decreases active.len() - i,
    {
        let m = active[i];
        assert(act[i as int] == *m);
        let mut e = owned("[Profile memory: ");
        e.append(m.title.as_str());
        e.append("]\n");
        e.append(m.content.as_str());
        parts.push(e);
        assert(entry_texts(act.take(i + 1)) =~= entry_texts(act.take(i as int)).push(
            memory_entry_text(*m),
        ));
        assert(strings_view(parts@) =~= entry_texts(act.take(i + 1)));
        i += 1;
    }
    assert(act.take(active.len() as int) =~= act);
    Some(join_strings(&parts, "\n\n"))
}

/// Builds a composer indicator when profile memories will be included.
pub fn memory_context_indicator(items: &[MemoryListItem]) -> (r: Option<MemoryContextIndicator>)
    ensures
        match r {
            Some(ind) => {
                let act = active_items(items@);
                &&& act.len() > 0
                &&& ind.active_count == act.len()
                &&& ind.summary_label@ == (if act.len() == 1 {
                    "1 memory active"@
                } else {
                    dec(act.len()) + " memories active"@
                })
                &&& ind.detail_label@ == join(title_texts(act), ", "@)
            },
            None => active_items(items@).len() == 0,
        },
{
    let active = active_memories_for_context(items);
    if active.len() == 0 {
        return None;
    }
    let ghost act = active_items(items@);
    assert(active@.len() == act.len()) by {
        assert(active@.map_values(|m: &MemoryListItem| *m).len() == active@.len());
    }
    let active_count = active.len();
    let summary_label = if active_count == 1 {
        owned("1 memory active")
    } else {
        let mut s = fmt_usize(active_count);
        s.append(" memories active");
        s
    };
    let mut titles: Vec<String> = Vec::new();
    let mut i: usize = 0;
    while i < active.len()
        invariant
            i <= active.len(),
            active@.map_values(|m: &MemoryListItem| *m) == act,
            strings_view(titles@) == title_texts(act.take(i as int)),
        decreases active.len() - i,
    {
        let m = active[i];
        assert(act[i as int] == *m);
        titles.push(m.title.clone());
        assert(title_texts(act.take(i + 1)) =~= title_texts(act.take(i as int)).push(m.title@));
        assert(strings_view(titles@) =~= title_texts(act.take(i + 1)));
        i += 1;
    }
    assert(act.take(active.len() as int) =~= act);
    let detail_label = join_strings(&titles, ", ");
    Some(MemoryContextIndicator { active_count, summary_label, detail_label })
}

/// Merges optional attachment and memory context blocks for a provider request.
pub fn merge_context_blocks(memory_block: Option<&str>, attachment_block: Option<&str>) -> (r:
    Option<String>)
    ensures
        ({
            let m = match memory_block {
                Some(s) if s@.len() > 0 => Some(s@),
                _ => None,
            };
            let a = match attachment_block {
                Some(s) if s@.len() > 0 => Some(s@),
                _ => None,
            };
            match (m, a) {
                (Some(x), Some(y)) => r is Some && r->0@ == x + "\n\n"@ + y,
                (Some(x), None) => r is Some && r->0@ == x,
                (None, Some(y)) => r is Some && r->0@ == y,
                (None, None) => r is None,
            }
        }),
{
    let m = match memory_block {
        Some(s) => if s.is_empty() {
            None
        } else {
            Some(s)
        },
        None => None,
    };
    let a = match attachment_block {
        Some(s) => if s.is_empty() {
            None
        } else {
            Some(s)
        },
        None => None,
    };
    match (m, a) {
        (Some(x), Some(y)) => {
            let mut r = owned(x);
            r.append("\n\n");
            r.append(y);
            Some(r)
        },
        (Some(x), None) => Some(owned(x)),
        (None, Some(y)) => Some(owned(y)),
        (None, None) => None,
    }
}

/// A regular or disabled memory is never injected into provider
/// context; inserting one anywhere in the list leaves the injected memories,
/// and so the context block and the indicator, unchanged.
pub proof fn law_hidden_memories_not_injected(items: Seq<MemoryListItem>, i: int, m: MemoryListItem)
    requires
        0 <= i <= items.len(),
        m.group == MemoryGroup::Regular || !m.enabled,
    ensures
        active_items(items.insert(i, m)) == active_items(items),
    decreases items.len(),
{
    if i == items.len() {
        assert(items.insert(i, m).drop_last() =~= items);
    } else {
        law_hidden_memories_not_injected(items.drop_last(), i, m);
        assert(items.insert(i, m).drop_last() =~= items.drop_last().insert(i, m));
        assert(items.insert(i, m).last() == items.last());
    }
}

} // verus!
