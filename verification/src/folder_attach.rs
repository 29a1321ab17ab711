//! Folder attachment: interactive file selection over a bounded listing.
//!
//! The listing is the walk's result as plain values; walking and deepening
//! the folder, and building the attachment from a selection, are the
//! shell's.

use crate::text::{
    chars_of, contains, contains_chars, lemma_lex_irrefl, lemma_lex_total, lemma_lex_trans, lex_lt,
    lower_chars, lower_seq, owned, str_eq, strings_view, trim, trim_str,
};
use vstd::prelude::*;

verus! {

/// One listed file.
#[derive(Debug, Clone, PartialEq, Eq)]
pub struct FolderEntry {
    /// Path relative to the listed folder.
    pub relative_path: String,
}

/// A bounded folder listing.
#[derive(Debug, Clone, PartialEq, Eq)]
pub struct FolderListing {
    /// Folder display name.
    pub name: String,
    /// Listed files, in walk order.
    pub entries: Vec<FolderEntry>,
    /// Whether the walk stopped at its caps.
    pub truncated: bool,
    /// Whether a deeper walk could raise the caps further.
    pub can_deepen: bool,
}

/// Relative paths of listed entries.
pub open spec fn entry_paths(es: Seq<FolderEntry>) -> Seq<Seq<char>> {
    es.map_values(|e: FolderEntry| e.relative_path@)
}

/// Interactive folder-attach state (listing + selection + browse filter).
pub struct FolderAttachState {
    listing: FolderListing,
    selected: Vec<String>,
    browse_filter: String,
}

/// Mathematical view of a [`FolderAttachState`].
pub struct FolderAttachView {
    /// Folder display name.
    pub name: Seq<char>,
    /// Listed entries.
    pub entries: Seq<FolderEntry>,
    /// Listing truncated.
    pub truncated: bool,
    /// Deeper walk possible.
    pub can_deepen: bool,
    /// Selected relative paths.
    pub selected: Set<Seq<char>>,
    /// Browse filter text.
    pub filter: Seq<char>,
}

impl View for FolderAttachState {
    type V = FolderAttachView;

    closed spec fn view(&self) -> FolderAttachView {
        FolderAttachView {
            name: self.listing.name@,
            entries: self.listing.entries@,
            truncated: self.listing.truncated,
            can_deepen: self.listing.can_deepen,
            selected: strings_view(self.selected@).to_set(),
            filter: self.browse_filter@,
        }
    }
}

/// Paths in strictly ascending byte order (the order of a `BTreeSet<String>`).
pub open spec fn paths_sorted(s: Seq<Seq<char>>) -> bool {
    forall|i: int, j: int| 0 <= i < j < s.len() ==> lex_lt(#[trigger] s[i], #[trigger] s[j], 0)
}

impl FolderAttachState {
    /// The selection holds each path once, in ascending byte order.
    pub closed spec fn wf(&self) -> bool {
        &&& strings_view(self.selected@).no_duplicates()
        &&& paths_sorted(strings_view(self.selected@))
    }
}

/// A strictly ascending list holds each path once.
proof fn lemma_sorted_no_dup(s: Seq<Seq<char>>)
    requires
        paths_sorted(s),
    ensures
        s.no_duplicates(),
{
    assert forall|i: int, j: int| 0 <= i < s.len() && 0 <= j < s.len() && i != j implies s[i]
        != s[j] by {
        if i < j {
            assert(lex_lt(s[i], s[j], 0));
        } else {
            assert(lex_lt(s[j], s[i], 0));
        }
        lemma_lex_irrefl(s[i], 0);
    }
}

/// Whether `a` comes before `b` in byte order.
fn path_before(a: &str, b: &str) -> (r: bool)
    ensures
        r == lex_lt(a@, b@, 0),
{
    let x = chars_of(a);
    let y = chars_of(b);
    let mut i: usize = 0;
    while i < x.len() && i < y.len() && x[i] == y[i]
        invariant
            i <= x.len(),
            i <= y.len(),
            x@ == a@,
            y@ == b@,
            lex_lt(a@, b@, 0) == lex_lt(a@, b@, i as int),
        decreases x.len() - i,
    {
        i += 1;
    }
    if i >= x.len() {
        i < y.len()
    } else if i >= y.len() {
        false
    } else {
        x[i] < y[i]
    }
}

/// Adds `p` at its place in the ascending list unless present.
fn insert_sorted(v: &mut Vec<String>, p: &str)
    requires
        strings_view(old(v)@).no_duplicates(),
        paths_sorted(strings_view(old(v)@)),
    ensures
        strings_view(final(v)@).no_duplicates(),
        paths_sorted(strings_view(final(v)@)),
        strings_view(final(v)@).to_set() == strings_view(old(v)@).to_set().insert(p@),
{
    let ghost prev = strings_view(v@);
    let mut k: usize = 0;
    while k < v.len() && path_before(v[k].as_str(), p)
        invariant
            k <= v.len(),
            strings_view(v@) == prev,
            forall|j: int| 0 <= j < k ==> lex_lt(#[trigger] prev[j], p@, 0),
        decreases v.len() - k,
    {
        assert(prev[k as int] == v@[k as int]@);
        k += 1;
    }
    if k < v.len() && str_eq(v[k].as_str(), p) {
        assert(prev[k as int] == p@);
        assert(prev.to_set() =~= prev.to_set().insert(p@));
        return;
    }
    proof {
        if k < prev.len() {
            assert(prev[k as int] == v@[k as int]@);
            assert(!lex_lt(prev[k as int], p@, 0));
            assert(prev[k as int] != p@);
            lemma_lex_total(p@, prev[k as int], 0);
        }
    }
    v.insert(k, owned(p));
    let ghost next = strings_view(v@);
    assert(next =~= prev.insert(k as int, p@));
    assert forall|i: int, j: int| 0 <= i < j < next.len() implies lex_lt(
        #[trigger] next[i],
        #[trigger] next[j],
        0,
    ) by {
        if j < k {
            assert(lex_lt(prev[i], prev[j], 0));
        } else if j == k {
            assert(lex_lt(prev[i], p@, 0));
        } else if i < k {
            assert(lex_lt(prev[i], p@, 0));
            if j - 1 == k {
                assert(lex_lt(p@, prev[k as int], 0));
            } else {
                assert(lex_lt(prev[k as int], prev[j - 1], 0));
                lemma_lex_trans(p@, prev[k as int], prev[j - 1]);
            }
            lemma_lex_trans(prev[i], p@, prev[j - 1]);
        } else if i == k {
            if j - 1 == k {
                assert(lex_lt(p@, prev[k as int], 0));
            } else {
                assert(lex_lt(prev[k as int], prev[j - 1], 0));
                lemma_lex_trans(p@, prev[k as int], prev[j - 1]);
            }
        } else {
            assert(lex_lt(prev[i - 1], prev[j - 1], 0));
        }
    }
    proof {
        lemma_sorted_no_dup(next);
    }
    assert(next.to_set() =~= prev.to_set().insert(p@)) by {
        assert forall|x: Seq<char>| next.contains(x) <==> (prev.contains(x) || x == p@) by {
            if next.contains(x) {
                let j = choose|j: int| 0 <= j < next.len() && next[j] == x;
                if j < k {
                    assert(prev[j] == x);
                } else if j > k {
                    assert(prev[j - 1] == x);
                }
            }
            if prev.contains(x) {
                let j = choose|j: int| 0 <= j < prev.len() && prev[j] == x;
                if j < k {
                    assert(next[j] == x);
                } else {
                    assert(next[j + 1] == x);
                }
            }
            if x == p@ {
                assert(next[k as int] == x);
            }
        }
    }
}

/// Index of `p` in `v`, if present.
fn find_str(v: &Vec<String>, p: &str) -> (r: Option<usize>)
    ensures
        match r {
            Some(i) => i < v.len() && v@[i as int]@ == p@,
            None => !strings_view(v@).contains(p@),
        },
{
    let mut i: usize = 0;
    while i < v.len()
        invariant
            i <= v.len(),
            forall|j: int| 0 <= j < i ==> v@[j]@ != p@,
        decreases v.len() - i,
    {
        if str_eq(v[i].as_str(), p) {
            return Some(i);
        }
        i += 1;
    }
    assert forall|j: int| 0 <= j < strings_view(v@).len() implies strings_view(v@)[j] != p@ by {
        assert(strings_view(v@)[j] == v@[j]@);
    }
    None
}

/// Removes the entry at `i`.
fn remove_at(v: &mut Vec<String>, i: usize)
    requires
        i < old(v).len(),
        strings_view(old(v)@).no_duplicates(),
        paths_sorted(strings_view(old(v)@)),
    ensures
        strings_view(final(v)@).no_duplicates(),
        paths_sorted(strings_view(final(v)@)),
        strings_view(final(v)@).to_set() == strings_view(old(v)@).to_set().remove(old(v)@[i as int]@),
{
    let ghost prev = strings_view(v@);
    let ghost x = v@[i as int]@;
    v.remove(i);
    assert(strings_view(v@) =~= prev.remove(i as int));
    assert forall|a: int, b: int| 0 <= a < b < prev.remove(i as int).len() implies lex_lt(
        #[trigger] prev.remove(i as int)[a],
        #[trigger] prev.remove(i as int)[b],
        0,
    ) by {
        let a2 = if a < i { a } else { a + 1 };
        let b2 = if b < i { b } else { b + 1 };
        assert(prev.remove(i as int)[a] == prev[a2]);
        assert(prev.remove(i as int)[b] == prev[b2]);
        assert(lex_lt(prev[a2], prev[b2], 0));
    }
    assert(strings_view(v@).to_set() =~= prev.to_set().remove(x)) by {
        assert forall|y: Seq<char>| prev.remove(i as int).contains(y) <==> (prev.contains(y) && y
            != x) by {
            if prev.remove(i as int).contains(y) {
                let j = choose|j: int| 0 <= j < prev.len() - 1 && prev.remove(i as int)[j] == y;
                assert(prev[i as int] == x);
                if j < i {
                    assert(prev[j] == y);
                    assert(prev[j] != prev[i as int]);
                } else {
                    assert(prev[j + 1] == y);
                    assert(prev[j + 1] != prev[i as int]);
                }
            }
            if prev.contains(y) && y != x {
                let j = choose|j: int| 0 <= j < prev.len() && prev[j] == y;
                assert(j != i);
                if j < i {
                    assert(prev.remove(i as int)[j] == y);
                } else {
                    assert(prev.remove(i as int)[j - 1] == y);
                }
            }
        }
    }
}

/// Whether the filter admits a path: case-insensitive (ASCII) substring of
/// the trimmed filter; a blank filter admits every path.
pub open spec fn filter_admits(filter: Seq<char>, path: Seq<char>) -> bool {
    trim(filter).len() == 0 || contains(lower_seq(path), lower_seq(trim(filter)))
}

/// Entries the filter admits, in listing order.
pub open spec fn visible_spec(es: Seq<FolderEntry>, filter: Seq<char>) -> Seq<FolderEntry>
    decreases es.len(),
{
    if es.len() == 0 {
        Seq::empty()
    } else {
        let prev = visible_spec(es.drop_last(), filter);
        if filter_admits(filter, es.last().relative_path@) {
            prev.push(es.last())
        } else {
            prev
        }
    }
}

/// Whether the filter (trimmed, lower-cased as `needle`) admits `path`.
fn admits(blank: bool, needle: &[char], path: &str) -> (r: bool)
    ensures
        r == (blank || contains(lower_seq(path@), needle@)),
{
    if blank {
        return true;
    }
    let lp = lower_chars(chars_of(path).as_slice());
    contains_chars(lp.as_slice(), needle)
}

impl FolderAttachState {
    /// Creates state with every listed file selected by default.
    pub fn from_listing(listing: FolderListing) -> (r: Self)
        ensures
            r.wf(),
            r@.name == listing.name@,
            r@.entries == listing.entries@,
            r@.truncated == listing.truncated,
            r@.can_deepen == listing.can_deepen,
            r@.selected == entry_paths(listing.entries@).to_set(),
            r@.filter == Seq::<char>::empty(),
    {
        let mut selected: Vec<String> = Vec::new();
        let mut i: usize = 0;
        while i < listing.entries.len()
            invariant
                i <= listing.entries.len(),
                strings_view(selected@).no_duplicates(),
                paths_sorted(strings_view(selected@)),
                strings_view(selected@).to_set() == entry_paths(listing.entries@.take(i as int)).to_set(),
            decreases listing.entries.len() - i,
        {
            insert_sorted(&mut selected, listing.entries[i].relative_path.as_str());
            proof {
                let e = entry_paths(listing.entries@.take(i as int));
                assert(entry_paths(listing.entries@.take(i + 1)) =~= e.push(
                    listing.entries@[i as int].relative_path@,
                ));
                lemma_push_to_set(e, listing.entries@[i as int].relative_path@);
            }
            i += 1;
        }
        assert(listing.entries@.take(listing.entries.len() as int) =~= listing.entries@);
        FolderAttachState { listing, selected, browse_filter: String::new() }
    }

    /// Folder display name.
    pub fn name(&self) -> (r: &str)
        ensures
            r@ == self@.name,
    {
        self.listing.name.as_str()
    }

    /// Underlying listing (bounded).
    pub fn listing(&self) -> (r: &FolderListing)
        ensures
            r.name@ == self@.name,
            r.entries@ == self@.entries,
            r.truncated == self@.truncated,
            r.can_deepen == self@.can_deepen,
    {
        &self.listing
    }

    /// Current UI browse filter text.
    pub fn browse_filter(&self) -> (r: &str)
        ensures
            r@ == self@.filter,
    {
        self.browse_filter.as_str()
    }

    /// Sets the browse filter used by [`Self::visible_entries`].
    ///
    /// Does not change selection; empty/whitespace clears the filter.
    pub fn set_browse_filter(&mut self, filter: &str)
        requires
            old(self).wf(),
        ensures
            final(self).wf(),
            final(self)@ == (FolderAttachView { filter: filter@, ..old(self)@ }),
    {
        self.browse_filter = owned(filter);
    }

    /// Clears the browse filter so all listed entries are visible again.
    pub fn clear_browse_filter(&mut self)
        requires
            old(self).wf(),
        ensures
            final(self).wf(),
            final(self)@ == (FolderAttachView { filter: Seq::empty(), ..old(self)@ }),
    {
        self.browse_filter = String::new();
    }

    /// Entries visible under the current browse filter (case-insensitive path substring).
    pub fn visible_entries(&self) -> (r: Vec<&FolderEntry>)
        ensures
            r@.map_values(|e: &FolderEntry| *e) == visible_spec(self@.entries, self@.filter),
    {
        let needle = lower_chars(trim_str(self.browse_filter.as_str()).as_slice());
        let blank = needle.len() == 0;
        proof {
            crate::text::lemma_utf8_len_lower(trim(self@.filter));
            assert(lower_seq(trim(self@.filter)).len() == trim(self@.filter).len());
        }
        let es = &self.listing.entries;
        let mut out: Vec<&FolderEntry> = Vec::new();
        let mut i: usize = 0;
        while i < es.len()
            invariant
                i <= es.len(),
                es@ == self@.entries,
                needle@ == lower_seq(trim(self@.filter)),
                blank == (trim(self@.filter).len() == 0),
                out@.map_values(|e: &FolderEntry| *e) == visible_spec(es@.take(i as int), self@.filter),
            decreases es.len() - i,
        {
            let e = &es[i];
            proof {
                assert(es@.take(i + 1).drop_last() =~= es@.take(i as int));
                assert(es@.take(i + 1).last() == es@[i as int]);
            }
            if admits(blank, needle.as_slice(), e.relative_path.as_str()) {
                let ghost prev = out@;
                out.push(e);
                assert(out@.map_values(|e: &FolderEntry| *e) =~= prev.map_values(|e: &FolderEntry| *e).push(*e));
            }
            i += 1;
        }
        assert(es@.take(es.len() as int) =~= es@);
        out
    }

    /// Whether progressive deepen can raise listing caps further.
    pub fn can_reveal_more(&self) -> (r: bool)
        ensures
            r == (self@.truncated && self@.can_deepen),
    {
        self.listing.truncated && self.listing.can_deepen
    }

    /// Whether `relative_path` is selected.
    pub fn is_selected(&self, relative_path: &str) -> (r: bool)
        ensures
            r == self@.selected.contains(relative_path@),
    {
        match find_str(&self.selected, relative_path) {
            Some(i) => {
                assert(strings_view(self.selected@)[i as int] == relative_path@);
                true
            },
            None => false,
        }
    }

    /// Number of selected files.
    pub fn selected_count(&self) -> (r: usize)
        requires
            self.wf(),
        ensures
            r == self@.selected.len(),
    {
        proof {
            strings_view(self.selected@).unique_seq_to_set();
        }
        self.selected.len()
    }

    /// The selected paths in ascending byte order, each once (the order in
    /// which the attachment is built from them).
    pub fn selected_paths(&self) -> (r: Vec<String>)
        requires
            self.wf(),
        ensures
            paths_sorted(strings_view(r@)),
            strings_view(r@).to_set() == self@.selected,
    {
        let mut out: Vec<String> = Vec::new();
        let mut i: usize = 0;
        while i < self.selected.len()
            invariant
                i <= self.selected.len(),
                strings_view(out@) == strings_view(self.selected@).take(i as int),
            decreases self.selected.len() - i,
        {
            let ghost prev = out@;
            let c = self.selected[i].clone();
            out.push(c);
            proof {
                assert(out@ =~= prev.push(c));
                assert(strings_view(out@) =~= strings_view(prev).push(c@));
                assert(strings_view(self.selected@).take(i + 1) =~= strings_view(self.selected@).take(
                    i as int,
                ).push(self.selected@[i as int]@));
            }
            i += 1;
        }
        assert(strings_view(self.selected@).take(self.selected.len() as int) =~= strings_view(
            self.selected@,
        ));
        out
    }

    /// Toggles selection for one listed file; paths not in the listing are ignored.
    pub fn toggle_file(&mut self, relative_path: &str)
        requires
            old(self).wf(),
        ensures
            final(self).wf(),
            final(self)@ == toggled(old(self)@, relative_path@),
    {
        let mut listed = false;
        let mut i: usize = 0;
        while i < self.listing.entries.len()
            invariant
                i <= self.listing.entries.len(),
                listed == entry_paths(self.listing.entries@.take(i as int)).contains(relative_path@),
            decreases self.listing.entries.len() - i,
        {
            proof {
                let e = entry_paths(self.listing.entries@.take(i as int));
                assert(entry_paths(self.listing.entries@.take(i + 1)) =~= e.push(
                    self.listing.entries@[i as int].relative_path@,
                ));
                lemma_push_to_set(e, self.listing.entries@[i as int].relative_path@);
                assert(e.push(self.listing.entries@[i as int].relative_path@).to_set().contains(
                    relative_path@,
                ) == e.push(self.listing.entries@[i as int].relative_path@).contains(relative_path@));
            }
            if str_eq(self.listing.entries[i].relative_path.as_str(), relative_path) {
                listed = true;
            }
            i += 1;
        }
        assert(self.listing.entries@.take(self.listing.entries.len() as int) =~= self.listing.entries@);
        if !listed {
            return;
        }
        match find_str(&self.selected, relative_path) {
            Some(k) => {
                assert(strings_view(self.selected@)[k as int] == relative_path@);
                remove_at(&mut self.selected, k);
            },
            None => {
                insert_sorted(&mut self.selected, relative_path);
            },
        }
    }

    /// Clears all selections.
    pub fn clear_selection(&mut self)
        requires
            old(self).wf(),
        ensures
            final(self).wf(),
            final(self)@ == (FolderAttachView { selected: Set::empty(), ..old(self)@ }),
    {
        self.selected = Vec::new();
        assert(strings_view(self.selected@).to_set() =~= Set::<Seq<char>>::empty());
    }

    /// Selects all currently visible files (respects browse filter).
    pub fn select_all_visible(&mut self)
        requires
            old(self).wf(),
        ensures
            final(self).wf(),
            final(self)@ == (FolderAttachView {
                selected: old(self)@.selected.union(
                    entry_paths(visible_spec(old(self)@.entries, old(self)@.filter)).to_set(),
                ),
                ..old(self)@
            }),
    {
        let vis = self.visible_entries();
        let ghost vs = visible_spec(self@.entries, self@.filter);
        let ghost base = self@.selected;
        let mut paths: Vec<String> = Vec::new();
        let mut i: usize = 0;
        while i < vis.len()
            invariant
                i <= vis.len(),
                vis@.map_values(|e: &FolderEntry| *e) == vs,
                strings_view(paths@) == entry_paths(vs.take(i as int)),
            decreases vis.len() - i,
        {
            let ghost prev = paths@;
            paths.push(owned(vis[i].relative_path.as_str()));
            proof {
                assert(vs[i as int] == *vis@[i as int]);
                assert(strings_view(paths@) =~= strings_view(prev).push(vs[i as int].relative_path@));
                assert(entry_paths(vs.take(i + 1)) =~= entry_paths(vs.take(i as int)).push(
                    vs[i as int].relative_path@,
                ));
            }
            i += 1;
        }
        assert(vs.take(vis.len() as int) =~= vs);
        let mut j: usize = 0;
        while j < paths.len()
            invariant
                j <= paths.len(),
                strings_view(self.selected@).no_duplicates(),
                paths_sorted(strings_view(self.selected@)),
                strings_view(self.selected@).to_set() == base.union(
                    strings_view(paths@).take(j as int).to_set(),
                ),
                self@.entries == old(self)@.entries,
                self@.name == old(self)@.name,
                self@.filter == old(self)@.filter,
                self@.truncated == old(self)@.truncated,
                self@.can_deepen == old(self)@.can_deepen,
            decreases paths.len() - j,
        {
            insert_sorted(&mut self.selected, paths[j].as_str());
            proof {
                let t = strings_view(paths@).take(j as int);
                assert(strings_view(paths@).take(j + 1) =~= t.push(paths@[j as int]@));
                lemma_push_to_set(t, paths@[j as int]@);
                assert(base.union(t.to_set()).insert(paths@[j as int]@) =~= base.union(
                    t.to_set().insert(paths@[j as int]@),
                ));
            }
            j += 1;
        }
        assert(strings_view(paths@).take(paths.len() as int) =~= strings_view(paths@));
    }

    /// Selects all listed files.
    pub fn select_all(&mut self)
        requires
            old(self).wf(),
        ensures
            final(self).wf(),
            final(self)@ == (FolderAttachView {
                selected: entry_paths(old(self)@.entries).to_set(),
                ..old(self)@
            }),
    {
        let mut selected: Vec<String> = Vec::new();
        let mut i: usize = 0;
        while i < self.listing.entries.len()
            invariant
                i <= self.listing.entries.len(),
                strings_view(selected@).no_duplicates(),
                paths_sorted(strings_view(selected@)),
                strings_view(selected@).to_set() == entry_paths(self.listing.entries@.take(i as int)).to_set(),
            decreases self.listing.entries.len() - i,
        {
            insert_sorted(&mut selected, self.listing.entries[i].relative_path.as_str());
            proof {
                let e = entry_paths(self.listing.entries@.take(i as int));
                assert(entry_paths(self.listing.entries@.take(i + 1)) =~= e.push(
                    self.listing.entries@[i as int].relative_path@,
                ));
                lemma_push_to_set(e, self.listing.entries@[i as int].relative_path@);
            }
            i += 1;
        }
        assert(self.listing.entries@.take(self.listing.entries.len() as int) =~= self.listing.entries@);
        self.selected = selected;
    }

    /// Replaces the listing after a progressive deepen / re-filter walk.
    ///
    /// Keeps selections that still exist in the new listing; newly listed files
    /// are not auto-selected (explicit selection remains mandatory for new paths).
    pub fn replace_listing(&mut self, listing: FolderListing)
        requires
            old(self).wf(),
        ensures
            final(self).wf(),
            final(self)@ == (FolderAttachView {
                name: listing.name@,
                entries: listing.entries@,
                truncated: listing.truncated,
                can_deepen: listing.can_deepen,
                selected: old(self)@.selected.intersect(entry_paths(listing.entries@).to_set()),
                ..old(self)@
            }),
    {
        let ghost np = entry_paths(listing.entries@);
        let ghost base = strings_view(self.selected@);
        let mut kept: Vec<String> = Vec::new();
        let mut i: usize = 0;
        while i < self.selected.len()
            invariant
                i <= self.selected.len(),
                base == strings_view(self.selected@),
                base.no_duplicates(),
                paths_sorted(base),
                np == entry_paths(listing.entries@),
                strings_view(kept@).no_duplicates(),
                paths_sorted(strings_view(kept@)),
                strings_view(kept@).to_set() == base.take(i as int).to_set().intersect(np.to_set()),
                forall|x: Seq<char>| strings_view(kept@).contains(x) ==> base.take(i as int).contains(x),
            decreases self.selected.len() - i,
        {
            let p = self.selected[i].as_str();
            let mut listed = false;
            let mut k: usize = 0;
            while k < listing.entries.len()
                invariant
                    k <= listing.entries.len(),
                    np == entry_paths(listing.entries@),
                    listed == np.take(k as int).contains(p@),
                decreases listing.entries.len() - k,
            {
                proof {
                    assert(np.take(k + 1) =~= np.take(k as int).push(np[k as int]));
                    lemma_push_to_set(np.take(k as int), np[k as int]);
                    assert(np.take(k + 1).to_set().contains(p@) == np.take(k + 1).contains(p@));
                }
                if str_eq(listing.entries[k].relative_path.as_str(), p) {
                    listed = true;
                }
                k += 1;
            }
            assert(np.take(listing.entries.len() as int) =~= np);
            proof {
                let t = base.take(i as int);
                assert(base.take(i + 1) =~= t.push(base[i as int]));
                lemma_push_to_set(t, base[i as int]);
                assert(base[i as int] == p@);
                if t.contains(p@) {
                    let j = choose|j: int| 0 <= j < t.len() && t[j] == p@;
                    assert(base[j] == base[i as int]);
                }
            }
            if listed {
                let ghost prev = strings_view(kept@);
                kept.push(owned(p));
                proof {
                    assert(strings_view(kept@) =~= prev.push(p@));
                    lemma_push_to_set(prev, p@);
                    assert forall|a: int, b: int|
                        0 <= a < strings_view(kept@).len() && 0 <= b < strings_view(kept@).len()
                            && a != b implies strings_view(kept@)[a] != strings_view(kept@)[b] by {
                        if a == prev.len() {
                            assert(prev.contains(strings_view(kept@)[b]));
                        }
                        if b == prev.len() {
                            assert(prev.contains(strings_view(kept@)[a]));
                        }
                    }
                    assert(strings_view(kept@).to_set() =~= base.take(i + 1).to_set().intersect(
                        np.to_set(),
                    ));
                    assert forall|x: Seq<char>| strings_view(kept@).contains(x) implies base.take(
                        i + 1,
                    ).contains(x) by {
                        assert(strings_view(kept@).to_set().contains(x));
                    }
                    let kv = strings_view(kept@);
                    assert forall|a: int, b: int| 0 <= a < b < kv.len() implies lex_lt(
                        #[trigger] kv[a],
                        #[trigger] kv[b],
                        0,
                    ) by {
                        if b < prev.len() {
                            assert(kv[a] == prev[a]);
                            assert(kv[b] == prev[b]);
                            assert(lex_lt(prev[a], prev[b], 0));
                        } else {
                            assert(kv[a] == prev[a]);
                            assert(prev.contains(prev[a]));
                            assert(base.take(i as int).contains(prev[a]));
                            let j = choose|j: int| 0 <= j < i && base.take(i as int)[j] == prev[a];
                            assert(base[j] == prev[a]);
                            assert(lex_lt(base[j], base[i as int], 0));
                        }
                    }
                }
            } else {
                proof {
                    assert(strings_view(kept@).to_set() =~= base.take(i + 1).to_set().intersect(
                        np.to_set(),
                    ));
                    assert forall|x: Seq<char>| strings_view(kept@).contains(x) implies base.take(
                        i + 1,
                    ).contains(x) by {
                        assert(base.take(i as int).contains(x));
                        let j = choose|j: int| 0 <= j < i && base.take(i as int)[j] == x;
                        assert(base.take(i + 1)[j] == x);
                    }
                }
            }
            i += 1;
        }
        assert(base.take(self.selected.len() as int) =~= base);
        self.selected = kept;
        self.listing = listing;
    }
}

/// State after toggling `p`: a listed path flips in or out of the selection.
pub open spec fn toggled(v: FolderAttachView, p: Seq<char>) -> FolderAttachView {
    FolderAttachView {
        selected: if !entry_paths(v.entries).contains(p) {
            v.selected
        } else if v.selected.contains(p) {
            v.selected.remove(p)
        } else {
            v.selected.insert(p)
        },
        ..v
    }
}

/// Toggling the same path twice gives back the selection.
pub proof fn law_toggle_twice_restores(v: FolderAttachView, p: Seq<char>)
    ensures
        toggled(toggled(v, p), p) == v,
{
    if entry_paths(v.entries).contains(p) {
        if v.selected.contains(p) {
            assert(v.selected.remove(p).insert(p) =~= v.selected);
        } else {
            assert(v.selected.insert(p).remove(p) =~= v.selected);
        }
    }
}

/// The set of a sequence grows by the pushed element.
proof fn lemma_push_to_set(s: Seq<Seq<char>>, x: Seq<char>)
    ensures
        s.push(x).to_set() == s.to_set().insert(x),
        s.push(x).contains(x),
{
    assert(s.push(x)[s.len() as int] == x);
    assert forall|y: Seq<char>| s.push(x).contains(y) <==> (s.contains(y) || y == x) by {
        if s.push(x).contains(y) {
            let j = choose|j: int| 0 <= j < s.len() + 1 && s.push(x)[j] == y;
            if j < s.len() {
                assert(s[j] == y);
            }
        }
        if s.contains(y) {
            let j = choose|j: int| 0 <= j < s.len() && s[j] == y;
            assert(s.push(x)[j] == y);
        }
    }
    assert(s.push(x).to_set() =~= s.to_set().insert(x));
}

/// Creates folder-attach state from a listing (all files selected).
pub fn folder_attach_from_listing(listing: FolderListing) -> (r: FolderAttachState)
    ensures
        r.wf(),
        r@.entries == listing.entries@,
        r@.selected == entry_paths(listing.entries@).to_set(),
        r@.filter == Seq::<char>::empty(),
{
    FolderAttachState::from_listing(listing)
}

/// Label for the `@folder` picker row.
pub fn folder_attach_label() -> (r: &'static str)
    ensures
        r@ == "Attach folder"@,
{
    "Attach folder"
}

/// Truncation hint when a listing was bounded.
pub fn folder_truncated_hint() -> (r: &'static str)
    ensures
        r@ == "Listing truncated — reveal more or narrow with the browse filter."@,
{
    "Listing truncated — reveal more or narrow with the browse filter."
}

/// Label for the progressive deepen control.
pub fn folder_reveal_more_label() -> (r: &'static str)
    ensures
        r@ == "Reveal more"@,
{
    "Reveal more"
}

/// Placeholder for the folder browse filter field.
pub fn folder_browse_filter_placeholder() -> (r: &'static str)
    ensures
        r@ == "Filter files…"@,
{
    "Filter files…"
}

} // verus!
