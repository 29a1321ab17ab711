//! Settings overlay sections and field labels.

use crate::text::{
    chars_of, contains, contains_chars, is_ascii_text, lower_seq, to_lowercase, trim, trim_str, unicode_lowercase,
};
use vstd::prelude::*;

verus! {

/// Sidebar section in the settings overlay.
#[derive(Clone, Copy, Debug, PartialEq, Eq, Structural)]
pub enum SettingsSection {
    /// Memories, artifacts, hints, notifications, auto-title.
    General,
    /// Theme and UI scale.
    Appearance,
    /// Provider and model defaults.
    Models,
    /// Data retention and export.
    Privacy,
    /// Shortcut reference.
    Keyboard,
    /// Developer / advanced toggles.
    Advanced,
}

/// Open section and search query for the settings overlay.
#[derive(Clone, Debug)]
pub struct SettingsState {
    open: bool,
    section: SettingsSection,
    search: String,
}

impl SettingsState {
    /// Whether the overlay is visible (specification view).
    pub closed spec fn spec_open(&self) -> bool {
        self.open
    }

    /// Active section (specification view).
    pub closed spec fn spec_section(&self) -> SettingsSection {
        self.section
    }

    /// Section filter text (specification view).
    pub closed spec fn spec_search(&self) -> Seq<char> {
        self.search@
    }

    /// Closed overlay on the General section.
    pub fn new() -> (s: Self)
        ensures
            !s.spec_open(),
            s.spec_section() == SettingsSection::General,
            s.spec_search() == Seq::<char>::empty(),
    {
        Self { open: false, section: SettingsSection::General, search: String::new() }
    }

    /// Shows the overlay.
    pub fn open(&mut self)
        ensures
            final(self).spec_open(),
            final(self).spec_section() == old(self).spec_section(),
            final(self).spec_search() == old(self).spec_search(),
    {
        self.open = true;
    }

    /// Hides the overlay.
    pub fn close(&mut self)
        ensures
            !final(self).spec_open(),
            final(self).spec_section() == old(self).spec_section(),
            final(self).spec_search() == old(self).spec_search(),
    {
        self.open = false;
    }

    /// Flips overlay visibility.
    pub fn toggle(&mut self)
        ensures
            final(self).spec_open() == !old(self).spec_open(),
            final(self).spec_section() == old(self).spec_section(),
            final(self).spec_search() == old(self).spec_search(),
    {
        self.open = !self.open;
    }

    /// Whether the overlay is visible.
    pub fn is_open(&self) -> (r: bool)
        ensures
            r == self.spec_open(),
    {
        self.open
    }

    /// Active section.
    pub fn section(&self) -> (r: SettingsSection)
        ensures
            r == self.spec_section(),
    {
        self.section
    }

    /// Selects a section.
    pub fn set_section(&mut self, section: SettingsSection)
        ensures
            final(self).spec_section() == section,
            final(self).spec_open() == old(self).spec_open(),
            final(self).spec_search() == old(self).spec_search(),
    {
        self.section = section;
    }

    /// Section filter text.
    pub fn search(&self) -> (r: &str)
        ensures
            r@ == self.spec_search(),
    {
        self.search.as_str()
    }

    /// Replaces the section filter.
    pub fn set_search(&mut self, search: &str)
        ensures
            final(self).spec_search() == search@,
            final(self).spec_open() == old(self).spec_open(),
            final(self).spec_section() == old(self).spec_section(),
    {
        self.search = String::from_str(search);
    }
}

/// Sidebar label text of a section.
pub open spec fn section_text(section: SettingsSection) -> Seq<char> {
    match section {
        SettingsSection::General => "General"@,
        SettingsSection::Appearance => "Appearance"@,
        SettingsSection::Models => "Models"@,
        SettingsSection::Privacy => "Privacy"@,
        SettingsSection::Keyboard => "Keyboard"@,
        SettingsSection::Advanced => "Advanced"@,
    }
}

/// All sections in sidebar order.
pub open spec fn all_sections() -> Seq<SettingsSection> {
    seq![
        SettingsSection::General,
        SettingsSection::Appearance,
        SettingsSection::Models,
        SettingsSection::Privacy,
        SettingsSection::Keyboard,
        SettingsSection::Advanced,
    ]
}

/// Sections among the first `k` whose lower-cased label contains `q`, in order.
pub open spec fn sections_matching(q: Seq<char>, k: int) -> Seq<SettingsSection>
    decreases k,
{
    if k <= 0 {
        Seq::empty()
    } else {
        let rest = sections_matching(q, k - 1);
        let s = all_sections()[k - 1];
        if contains(unicode_lowercase(section_text(s)), q) {
            rest.push(s)
        } else {
            rest
        }
    }
}

/// [`sections_matching`] with ASCII lower-casing of the labels.
pub open spec fn sections_matching_ascii(q: Seq<char>, k: int) -> Seq<SettingsSection>
    decreases k,
{
    if k <= 0 {
        Seq::empty()
    } else {
        let rest = sections_matching_ascii(q, k - 1);
        let s = all_sections()[k - 1];
        if contains(lower_seq(section_text(s)), q) {
            rest.push(s)
        } else {
            rest
        }
    }
}

proof fn lemma_section_text_ascii(s: SettingsSection)
    ensures
        is_ascii_text(section_text(s)),
{
    reveal_strlit("General");
    reveal_strlit("Appearance");
    reveal_strlit("Models");
    reveal_strlit("Privacy");
    reveal_strlit("Keyboard");
    reveal_strlit("Advanced");
}

/// Sidebar label for a settings section.
pub fn section_label(section: SettingsSection) -> (r: &'static str)
    ensures
        r@ == section_text(section),
{
    match section {
        SettingsSection::General => "General",
        SettingsSection::Appearance => "Appearance",
        SettingsSection::Models => "Models",
        SettingsSection::Privacy => "Privacy",
        SettingsSection::Keyboard => "Keyboard",
        SettingsSection::Advanced => "Advanced",
    }
}

/// Sections whose labels match `query` (case-insensitive substring).
///
/// Empty query returns every section.
pub fn visible_sections(query: &str) -> (r: Vec<SettingsSection>)
    ensures
        trim(query@).len() == 0 ==> r@ == all_sections(),
        trim(query@).len() > 0 ==> r@ == sections_matching(
            unicode_lowercase(trim(query@)),
            6,
        ),
        trim(query@).len() > 0 && is_ascii_text(trim(query@)) ==> r@ == sections_matching_ascii(
            lower_seq(trim(query@)),
            6,
        ),
{
    let all = [
        SettingsSection::General,
        SettingsSection::Appearance,
        SettingsSection::Models,
        SettingsSection::Privacy,
        SettingsSection::Keyboard,
        SettingsSection::Advanced,
    ];
    let q = trim_str(query);
    if q.len() == 0 {
        let v = vec![
            SettingsSection::General,
            SettingsSection::Appearance,
            SettingsSection::Models,
            SettingsSection::Privacy,
            SettingsSection::Keyboard,
            SettingsSection::Advanced,
        ];
        assert(v@ =~= all_sections());
        return v;
    }
    let qs = crate::text::string_of(q.as_slice());
    let ql = to_lowercase(qs.as_str());
    let qv = chars_of(ql.as_str());
    let mut out: Vec<SettingsSection> = Vec::new();
    let mut i: usize = 0;
    assert(all@ =~= all_sections());
    while i < 6
        invariant
            i <= 6,
            all@ == all_sections(),
            qv@ == unicode_lowercase(trim(query@)),
            out@ == sections_matching(qv@, i as int),
            is_ascii_text(trim(query@)) ==> qv@ == lower_seq(trim(query@)),
            is_ascii_text(trim(query@)) ==> out@ == sections_matching_ascii(qv@, i as int),
        decreases 6 - i,
    {
        let s = all[i];
        proof {
            lemma_section_text_ascii(s);
        }
        let label = to_lowercase(section_label(s));
        let lv = chars_of(label.as_str());
        if contains_chars(lv.as_slice(), qv.as_slice()) {
            out.push(s);
        }
        i += 1;
    }
    out
}

/// General: enable memories.
pub fn memories_toggle_label() -> (r: &'static str)
    ensures
        r@ == "Memories"@,
{
    "Memories"
}

/// General: enable artifacts.
pub fn artifacts_toggle_label() -> (r: &'static str)
    ensures
        r@ == "Artifacts"@,
{
    "Artifacts"
}

/// General: show shortcut hints and the first-run coach.
pub fn shortcut_hints_toggle_label() -> (r: &'static str)
    ensures
        r@ == "Shortcut hints"@,
{
    "Shortcut hints"
}

/// General: desktop notifications when generation finishes.
pub fn notifications_toggle_label() -> (r: &'static str)
    ensures
        r@ == "Desktop notifications"@,
{
    "Desktop notifications"
}

/// General: auto-generate thread titles after the first reply.
pub fn auto_title_toggle_label() -> (r: &'static str)
    ensures
        r@ == "Auto-generate thread titles"@,
{
    "Auto-generate thread titles"
}

/// Appearance: color scheme preference.
pub fn theme_label() -> (r: &'static str)
    ensures
        r@ == "Theme"@,
{
    "Theme"
}

/// Appearance: UI scale.
pub fn scale_label() -> (r: &'static str)
    ensures
        r@ == "Scale"@,
{
    "Scale"
}

} // verus!
