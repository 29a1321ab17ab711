//! Model picker presentation: provider grouping, capabilities, keyboard nav.

use crate::context_indicator::{
    context_window_of, format_token_count, model_base, model_base_exec,
    resolve_model_context_window, token_count_text,
};
use crate::text::{
    chars_of, contains, contains_chars, join, join_strings, owned, starts, starts_with_chars,
    str_eq, strings_view,
};
use vstd::prelude::*;

verus! {

/// Which backend a model belongs to.
#[derive(Debug, Clone, Copy, PartialEq, Eq, Hash, Structural)]
pub enum ModelProviderKind {
    /// Local Ollama models.
    Ollama,
    /// OpenAI-compatible HTTP API.
    OpenAi,
}

/// User-visible provider label.
pub open spec fn provider_label_text(k: ModelProviderKind) -> Seq<char> {
    match k {
        ModelProviderKind::Ollama => "Ollama"@,
        ModelProviderKind::OpenAi => "OpenAI"@,
    }
}

/// Stable provider id.
pub open spec fn provider_id_text(k: ModelProviderKind) -> Seq<char> {
    match k {
        ModelProviderKind::Ollama => "ollama"@,
        ModelProviderKind::OpenAi => "openai"@,
    }
}

/// The provider with stable id `id`.
pub open spec fn provider_from_id(id: Seq<char>) -> Option<ModelProviderKind> {
    if id == "ollama"@ {
        Some(ModelProviderKind::Ollama)
    } else if id == "openai"@ {
        Some(ModelProviderKind::OpenAi)
    } else {
        None
    }
}

impl ModelProviderKind {
    /// User-visible provider label.
    pub fn label(self) -> (r: &'static str)
        ensures
            r@ == provider_label_text(self),
    {
        match self {
            ModelProviderKind::Ollama => "Ollama",
            ModelProviderKind::OpenAi => "OpenAI",
        }
    }

    /// Stable id used when persisting thread provider (`"ollama"` / `"openai"`).
    pub fn id(self) -> (r: &'static str)
        ensures
            r@ == provider_id_text(self),
    {
        match self {
            ModelProviderKind::Ollama => "ollama",
            ModelProviderKind::OpenAi => "openai",
        }
    }

    /// Parses a stored provider id.
    pub fn from_id(id: &str) -> (r: Option<Self>)
        ensures
            r == provider_from_id(id@),
    {
        if str_eq(id, "ollama") {
            Some(ModelProviderKind::Ollama)
        } else if str_eq(id, "openai") {
            Some(ModelProviderKind::OpenAi)
        } else {
            None
        }
    }
}

/// Parsing a provider's id gives the provider back.
pub proof fn law_provider_id_round_trip(k: ModelProviderKind)
    ensures
        provider_from_id(provider_id_text(k)) == Some(k),
{
    reveal_strlit("ollama");
    reveal_strlit("openai");
    assert("ollama"@[1] != "openai"@[1]);
}

/// Known capability metadata for a model name.
#[derive(Debug, Clone, Copy, PartialEq, Eq, Default, Structural)]
pub struct ModelCapabilities {
    /// Approximate context window in tokens, when known.
    pub context_window_tokens: Option<usize>,
    /// Whether the model is known to accept image / vision inputs.
    pub supports_vision: bool,
}

/// Capability chip texts: context window then vision.
pub open spec fn summary_texts(c: ModelCapabilities) -> Seq<Seq<char>> {
    let w = match c.context_window_tokens {
        Some(t) => seq![token_count_text(t as nat) + " ctx"@],
        None => Seq::empty(),
    };
    if c.supports_vision {
        w.push("vision"@)
    } else {
        w
    }
}

/// The context window, if any, can be shown compactly without overflow.
pub open spec fn caps_ok(c: ModelCapabilities) -> bool {
    match c.context_window_tokens {
        Some(t) => t + 500000 <= usize::MAX,
        None => true,
    }
}

impl ModelCapabilities {
    /// Short capability chips for UI (e.g. `128k ctx`, `vision`).
    pub fn summary_parts(&self) -> (r: Vec<String>)
        requires
            caps_ok(*self),
        ensures
            strings_view(r@) == summary_texts(*self),
    {
        let mut parts: Vec<String> = Vec::new();
        match self.context_window_tokens {
            Some(tokens) => {
                let mut s = format_token_count(tokens);
                s.append(" ctx");
                parts.push(s);
            },
            None => {},
        }
        if self.supports_vision {
            parts.push(owned("vision"));
        }
        assert(strings_view(parts@) =~= summary_texts(*self));
        parts
    }
}

/// Whether a model family is known to accept images.
pub open spec fn vision_family(b: Seq<char>) -> bool {
    starts(b, "gpt-4o"@) || starts(b, "chatgpt-4o"@) || starts(b, "llava"@) || starts(
        b,
        "bakllava"@,
    ) || starts(b, "moondream"@) || contains(b, "vision"@)
}

/// Capabilities inferred from a model name.
pub open spec fn capabilities_of(name: Seq<char>) -> ModelCapabilities {
    ModelCapabilities {
        context_window_tokens: context_window_of(model_base(name)),
        supports_vision: vision_family(model_base(name)),
    }
}

fn has_prefix(b: &[char], p: &str) -> (r: bool)
    ensures
        r == starts(b@, p@),
{
    let pv = chars_of(p);
    starts_with_chars(b, pv.as_slice())
}

/// Infers capabilities from a model name (heuristic catalog).
pub fn infer_model_capabilities(model_name: &str) -> (r: ModelCapabilities)
    ensures
        r == capabilities_of(model_name@),
{
    let bv = model_base_exec(model_name);
    let b = bv.as_slice();
    let context_window_tokens = resolve_model_context_window(model_name);
    let vision = chars_of("vision");
    let supports_vision = has_prefix(b, "gpt-4o") || has_prefix(b, "chatgpt-4o") || has_prefix(
        b,
        "llava",
    ) || has_prefix(b, "bakllava") || has_prefix(b, "moondream") || contains_chars(
        b,
        vision.as_slice(),
    );
    ModelCapabilities { context_window_tokens, supports_vision }
}

/// Inferred capabilities always have a small enough context window to display.
pub proof fn lemma_inferred_caps_ok(name: Seq<char>)
    ensures
        caps_ok(capabilities_of(name)),
{
}

/// Joins capability chips into a single summary string.
pub fn format_capability_summary(caps: &ModelCapabilities) -> (r: String)
    requires
        caps_ok(*caps),
    ensures
        r@ == join(summary_texts(*caps), " · "@),
{
    let parts = caps.summary_parts();
    join_strings(&parts, " · ")
}

/// One selectable row in the model picker.
#[derive(Debug, Clone, PartialEq, Eq)]
pub struct ModelPickerEntry {
    /// Provider kind.
    pub provider: ModelProviderKind,
    /// Provider display label.
    pub provider_label: &'static str,
    /// Model identifier / name.
    pub model_name: String,
    /// Inferred capabilities.
    pub capabilities: ModelCapabilities,
    /// Whether this entry is the thread's currently active model.
    pub is_active: bool,
}

/// `e` is the row for model `name` of provider `kind`, with the given active flag.
pub open spec fn is_entry(e: ModelPickerEntry, kind: ModelProviderKind, name: Seq<char>, active: bool) -> bool {
    &&& e.provider == kind
    &&& e.provider_label@ == provider_label_text(kind)
    &&& e.model_name@ == name
    &&& e.capabilities == capabilities_of(name)
    &&& e.is_active == active
}

/// Keyboard keys handled by the model picker overlay.
#[derive(Debug, Clone, Copy, PartialEq, Eq, Structural)]
pub enum ModelPickerKey {
    /// Move highlight up.
    Up,
    /// Move highlight down.
    Down,
    /// Confirm selection.
    Enter,
    /// Dismiss without selecting.
    Escape,
}

/// Result of handling a picker key.
#[derive(Debug, Clone, PartialEq, Eq, Structural)]
pub enum ModelPickerAction {
    /// No-op.
    Noop,
    /// Highlight moved.
    HighlightChanged {
        /// New selected index.
        index: usize,
    },
    /// User confirmed an entry (picker closes).
    Select {
        /// Selected entry index.
        index: usize,
    },
    /// User dismissed the picker.
    Dismiss,
}

/// Open/closed + highlight state for the model picker overlay.
#[derive(Debug, Clone, PartialEq, Eq, Default, Structural)]
pub struct ModelPickerState {
    open: bool,
    selected: usize,
}

impl View for ModelPickerState {
    type V = (bool, usize);

    /// `(open, selected)`.
    closed spec fn view(&self) -> (bool, usize) {
        (self.open, self.selected)
    }
}

/// `(state, action)` after a picker key on `entry_count` rows.
pub open spec fn picker_key_result(v: (bool, usize), key: ModelPickerKey, n: usize) -> (
    (bool, usize),
    ModelPickerAction,
) {
    if !v.0 {
        (v, ModelPickerAction::Noop)
    } else {
        match key {
            ModelPickerKey::Escape => ((false, v.1), ModelPickerAction::Dismiss),
            ModelPickerKey::Enter => if n == 0 {
                ((false, v.1), ModelPickerAction::Dismiss)
            } else {
                (
                    (false, v.1),
                    ModelPickerAction::Select {
                        index: if v.1 <= n - 1 {
                            v.1
                        } else {
                            (n - 1) as usize
                        },
                    },
                )
            },
            ModelPickerKey::Down => if n == 0 {
                (v, ModelPickerAction::Noop)
            } else {
                let next = ((v.1 + 1) % (n as int)) as usize;
                ((true, next), ModelPickerAction::HighlightChanged { index: next })
            },
            ModelPickerKey::Up => if n == 0 {
                (v, ModelPickerAction::Noop)
            } else {
                let next = if v.1 == 0 {
                    (n - 1) as usize
                } else {
                    (v.1 - 1) as usize
                };
                ((true, next), ModelPickerAction::HighlightChanged { index: next })
            },
        }
    }
}

impl ModelPickerState {
    /// A closed picker highlighting the first row.
    pub fn new() -> (s: Self)
        ensures
            s@ == (false, 0usize),
    {
        ModelPickerState { open: false, selected: 0 }
    }

    /// Whether the overlay is visible.
    pub fn is_open(&self) -> (r: bool)
        ensures
            r == self@.0,
    {
        self.open
    }

    /// Opens the picker, resetting highlight to the first entry.
    pub fn open_with_count(&mut self, _entry_count: usize)
        ensures
            final(self)@ == (true, 0usize),
    {
        self.open = true;
        self.selected = 0;
    }

    /// Closes the picker.
    pub fn close(&mut self)
        ensures
            final(self)@ == (false, old(self)@.1),
    {
        self.open = false;
    }

    /// Current highlight index.
    pub fn selected(&self) -> (r: usize)
        ensures
            r == self@.1,
    {
        self.selected
    }

    /// Handles a key while the picker is open.
    pub fn handle_key(&mut self, key: ModelPickerKey, entry_count: usize) -> (r: ModelPickerAction)
        requires
            key == ModelPickerKey::Down && old(self)@.0 && entry_count > 0 ==> old(self)@.1
                < usize::MAX,
        ensures
            picker_key_result(old(self)@, key, entry_count) == (final(self)@, r),
    {
        if !self.open {
            return ModelPickerAction::Noop;
        }
        match key {
            ModelPickerKey::Escape => {
                self.close();
                ModelPickerAction::Dismiss
            },
            ModelPickerKey::Enter => {
                if entry_count == 0 {
                    self.close();
                    return ModelPickerAction::Dismiss;
                }
                let last = entry_count - 1;
                let index = if self.selected <= last {
                    self.selected
                } else {
                    last
                };
                self.close();
                ModelPickerAction::Select { index }
            },
            ModelPickerKey::Down => {
                if entry_count == 0 {
                    return ModelPickerAction::Noop;
                }
                let next = (self.selected + 1) % entry_count;
                self.selected = next;
                ModelPickerAction::HighlightChanged { index: next }
            },
            ModelPickerKey::Up => {
                if entry_count == 0 {
                    return ModelPickerAction::Noop;
                }
                let next = if self.selected == 0 {
                    entry_count - 1
                } else {
                    self.selected - 1
                };
                self.selected = next;
                ModelPickerAction::HighlightChanged { index: next }
            },
        }
    }
}

/// Pressing Down `n` times on `n` rows from a valid highlight comes back to it.
pub proof fn law_down_moves_cyclically(sel: usize, n: usize)
    requires
        0 < n,
        sel < n,
    ensures
        ({
            let (w, a) = picker_key_result((true, sel), ModelPickerKey::Down, n);
            &&& w.0
            &&& w.1 < n
            &&& w.1 == (if sel + 1 == n {
                0
            } else {
                sel + 1
            })
        }),
{
    if sel + 1 < n {
        vstd::arithmetic::div_mod::lemma_small_mod((sel + 1) as nat, n as nat);
    } else {
        vstd::arithmetic::div_mod::lemma_mod_self_0(n as int);
    }
}

/// Up undoes Down on an open picker with a valid highlight.
pub proof fn law_up_undoes_down(sel: usize, n: usize)
    requires
        0 < n,
        sel < n,
    ensures
        ({
            let (w, a) = picker_key_result((true, sel), ModelPickerKey::Down, n);
            picker_key_result(w, ModelPickerKey::Up, n).0 == (true, sel)
        }),
{
    if sel + 1 < n {
        vstd::arithmetic::div_mod::lemma_small_mod((sel + 1) as nat, n as nat);
    } else {
        vstd::arithmetic::div_mod::lemma_mod_self_0(n as int);
    }
}

/// Model names of `provider_models` listed under provider `kind`, in order.
pub open spec fn names_for(input: Seq<(ModelProviderKind, Vec<String>)>, kind: ModelProviderKind) -> Seq<
    Seq<char>,
>
    decreases input.len(),
{
    if input.len() == 0 {
        Seq::empty()
    } else {
        let rest = names_for(input.drop_last(), kind);
        if input.last().0 == kind {
            rest + strings_view(input.last().1@)
        } else {
            rest
        }
    }
}

/// Entry rows in picker order (Ollama models, then OpenAI models) with their
/// provider, paired with whether each is a fresh (inactive) row for that name.
pub open spec fn picker_rows(input: Seq<(ModelProviderKind, Vec<String>)>) -> Seq<
    (ModelProviderKind, Seq<char>),
> {
    names_for(input, ModelProviderKind::Ollama).map_values(
        |n: Seq<char>| (ModelProviderKind::Ollama, n),
    ) + names_for(input, ModelProviderKind::OpenAi).map_values(
        |n: Seq<char>| (ModelProviderKind::OpenAi, n),
    )
}

fn push_entries_for(
    out: &mut Vec<ModelPickerEntry>,
    provider_models: &[(ModelProviderKind, Vec<String>)],
    kind: ModelProviderKind,
)
    ensures
        final(out)@.len() == old(out)@.len() + names_for(provider_models@, kind).len(),
        forall|j: int| 0 <= j < old(out)@.len() ==> final(out)@[j] == old(out)@[j],
        forall|j: int|
            0 <= j < names_for(provider_models@, kind).len() ==> is_entry(
                #[trigger] final(out)@[old(out)@.len() + j],
                kind,
                names_for(provider_models@, kind)[j],
                false,
            ),
{
    let ghost start = out@;
    let mut i: usize = 0;
    while i < provider_models.len()
        invariant
            i <= provider_models.len(),
            out@.len() == start.len() + names_for(provider_models@.take(i as int), kind).len(),
            forall|j: int| 0 <= j < start.len() ==> out@[j] == start[j],
            forall|j: int|
                0 <= j < names_for(provider_models@.take(i as int), kind).len() ==> is_entry(
                    #[trigger] out@[start.len() + j],
                    kind,
                    names_for(provider_models@.take(i as int), kind)[j],
                    false,
                ),
        decreases provider_models.len() - i,
    {
        let ghost prev = names_for(provider_models@.take(i as int), kind);
        assert(provider_models@.take(i + 1).drop_last() =~= provider_models@.take(i as int));
        assert(provider_models@.take(i + 1).last() == provider_models@[i as int]);
        if provider_models[i].0 == kind {
            let models = &provider_models[i].1;
            let ghost mv = strings_view(models@);
            let mut k: usize = 0;
            while k < models.len()
                invariant
                    k <= models.len(),
                    mv == strings_view(models@),
                    out@.len() == start.len() + prev.len() + k,
                    forall|j: int| 0 <= j < start.len() ==> out@[j] == start[j],
                    forall|j: int|
                        0 <= j < prev.len() ==> is_entry(
                            #[trigger] out@[start.len() + j],
                            kind,
                            prev[j],
                            false,
                        ),
                    forall|j: int|
                        0 <= j < k ==> is_entry(
                            #[trigger] out@[start.len() + prev.len() + j],
                            kind,
                            mv[j],
                            false,
                        ),
                decreases models.len() - k,
            {
                let name = &models[k];
                let e = ModelPickerEntry {
                    provider: kind,
                    provider_label: kind.label(),
                    model_name: name.clone(),
                    capabilities: infer_model_capabilities(name.as_str()),
                    is_active: false,
                };
                out.push(e);
                k += 1;
            }
            proof {
                let cur = names_for(provider_models@.take(i + 1), kind);
                assert(cur =~= prev + mv);
                assert forall|j: int| 0 <= j < cur.len() implies is_entry(
                    #[trigger] out@[start.len() + j],
                    kind,
                    cur[j],
                    false,
                ) by {
                    if j < prev.len() {
                        assert(cur[j] == prev[j]);
                    } else {
                        assert(cur[j] == mv[j - prev.len()]);
                        assert(out@[start.len() + j] == out@[start.len() + prev.len() + (j
                            - prev.len())]);
                    }
                }
            }
        }
        i += 1;
    }
    assert(provider_models@.take(provider_models.len() as int) =~= provider_models@);
}

/// Builds flat picker entries from provider → model-name lists.
///
/// Providers are ordered Ollama then OpenAI regardless of input order.
pub fn build_picker_entries(provider_models: &[(ModelProviderKind, Vec<String>)]) -> (r: Vec<
    ModelPickerEntry,
>)
    ensures
        r@.len() == picker_rows(provider_models@).len(),
        forall|j: int|
            0 <= j < r@.len() ==> is_entry(
                #[trigger] r@[j],
                picker_rows(provider_models@)[j].0,
                picker_rows(provider_models@)[j].1,
                false,
            ),
{
    let mut out: Vec<ModelPickerEntry> = Vec::new();
    push_entries_for(&mut out, provider_models, ModelProviderKind::Ollama);
    push_entries_for(&mut out, provider_models, ModelProviderKind::OpenAi);
    proof {
        let rows = picker_rows(provider_models@);
        let a = names_for(provider_models@, ModelProviderKind::Ollama);
        assert forall|j: int| 0 <= j < out@.len() implies is_entry(
            #[trigger] out@[j],
            rows[j].0,
            rows[j].1,
            false,
        ) by {
            if j < a.len() {
                assert(out@[0 + j] == out@[j]);
            } else {
                assert(out@[a.len() + (j - a.len())] == out@[j]);
            }
        }
    }
    out
}

/// Entries of `entries` with provider `kind`, in order.
pub open spec fn entries_of(entries: Seq<ModelPickerEntry>, kind: ModelProviderKind) -> Seq<
    ModelPickerEntry,
>
    decreases entries.len(),
{
    if entries.len() == 0 {
        Seq::empty()
    } else {
        let rest = entries_of(entries.drop_last(), kind);
        if entries.last().provider == kind {
            rest.push(entries.last())
        } else {
            rest
        }
    }
}

fn refs_of_kind(entries: &[ModelPickerEntry], kind: ModelProviderKind) -> (r: Vec<
    &ModelPickerEntry,
>)
    ensures
        r@.map_values(|e: &ModelPickerEntry| *e) == entries_of(entries@, kind),
{
    let mut out: Vec<&ModelPickerEntry> = Vec::new();
    let mut i: usize = 0;
    while i < entries.len()
        invariant
            i <= entries.len(),
            out@.map_values(|e: &ModelPickerEntry| *e) == entries_of(entries@.take(i as int), kind),
        decreases entries.len() - i,
    {
        assert(entries@.take(i + 1).drop_last() =~= entries@.take(i as int));
        assert(entries@.take(i + 1).last() == entries@[i as int]);
        let ghost before = out@;
        let e = &entries[i];
        if e.provider == kind {
            out.push(e);
            assert(out@.map_values(|e: &ModelPickerEntry| *e) =~= before.map_values(
                |e: &ModelPickerEntry| *e,
            ).push(*e));
        }
        i += 1;
    }
    assert(entries@.take(entries.len() as int) =~= entries@);
    out
}

/// Groups flat entries into provider sections (Ollama first); empty sections are left out.
pub fn group_entries_by_provider(entries: &[ModelPickerEntry]) -> (r: Vec<
    (ModelProviderKind, Vec<&ModelPickerEntry>),
>)
    ensures
        ({
            let o = entries_of(entries@, ModelProviderKind::Ollama);
            let a = entries_of(entries@, ModelProviderKind::OpenAi);
            let groups = if o.len() > 0 {
                seq![(ModelProviderKind::Ollama, o)]
            } else {
                Seq::empty()
            } + if a.len() > 0 {
                seq![(ModelProviderKind::OpenAi, a)]
            } else {
                Seq::empty()
            };
            &&& r@.len() == groups.len()
            &&& forall|i: int|
                0 <= i < r@.len() ==> (#[trigger] r@[i]).0 == groups[i].0 && r@[i].1@.map_values(
                    |e: &ModelPickerEntry| *e,
                ) == groups[i].1
        }),
{
    let mut out: Vec<(ModelProviderKind, Vec<&ModelPickerEntry>)> = Vec::new();
    let o = refs_of_kind(entries, ModelProviderKind::Ollama);
    if o.len() > 0 {
        out.push((ModelProviderKind::Ollama, o));
    }
    let a = refs_of_kind(entries, ModelProviderKind::OpenAi);
    if a.len() > 0 {
        out.push((ModelProviderKind::OpenAi, a));
    }
    out
}

/// `e` with its active flag recomputed against `(provider_id, model_name)`.
pub open spec fn marked(e: ModelPickerEntry, provider_id: Seq<char>, model_name: Seq<char>) -> bool {
    provider_id_text(e.provider) == provider_id && e.model_name@ == model_name
}

/// `r` is `entries` with each active flag recomputed against `(provider_id, model_name)`.
pub open spec fn is_marked_copy(
    r: Seq<ModelPickerEntry>,
    entries: Seq<ModelPickerEntry>,
    provider_id: Seq<char>,
    model_name: Seq<char>,
) -> bool {
    &&& r.len() == entries.len()
    &&& forall|j: int|
        0 <= j < r.len() ==> {
            &&& (#[trigger] r[j]).provider == entries[j].provider
            &&& r[j].provider_label@ == entries[j].provider_label@
            &&& r[j].model_name@ == entries[j].model_name@
            &&& r[j].capabilities == entries[j].capabilities
            &&& r[j].is_active == marked(entries[j], provider_id, model_name)
        }
}

/// Marks the entry matching `provider_id` + `model_name` as active.
pub fn mark_active_entry(entries: &[ModelPickerEntry], provider_id: &str, model_name: &str) -> (r:
    Vec<ModelPickerEntry>)
    ensures
        is_marked_copy(r@, entries@, provider_id@, model_name@),
{
    let mut out: Vec<ModelPickerEntry> = Vec::new();
    let mut i: usize = 0;
    while i < entries.len()
        invariant
            i <= entries.len(),
            out@.len() == i,
            forall|j: int|
                0 <= j < i ==> {
                    &&& (#[trigger] out@[j]).provider == entries@[j].provider
                    &&& out@[j].provider_label@ == entries@[j].provider_label@
                    &&& out@[j].model_name@ == entries@[j].model_name@
                    &&& out@[j].capabilities == entries@[j].capabilities
                    &&& out@[j].is_active == marked(entries@[j], provider_id@, model_name@)
                },
        decreases entries.len() - i,
    {
        let e = &entries[i];
        let active = str_eq(e.provider.id(), provider_id) && str_eq(e.model_name.as_str(), model_name);
        out.push(
            ModelPickerEntry {
                provider: e.provider,
                provider_label: e.provider_label,
                model_name: e.model_name.clone(),
                capabilities: e.capabilities,
                is_active: active,
            },
        );
        i += 1;
    }
    out
}

/// Index of the first active entry, if any.
pub fn active_entry_index(entries: &[ModelPickerEntry]) -> (r: Option<usize>)
    ensures
        match r {
            Some(i) => i < entries@.len() && entries@[i as int].is_active && forall|j: int|
                0 <= j < i ==> !(#[trigger] entries@[j]).is_active,
            None => forall|j: int| 0 <= j < entries@.len() ==> !(#[trigger] entries@[j]).is_active,
        },
{
    let mut i: usize = 0;
    while i < entries.len()
        invariant
            i <= entries.len(),
            forall|j: int| 0 <= j < i ==> !(#[trigger] entries@[j]).is_active,
        decreases entries.len() - i,
    {
        if entries[i].is_active {
            return Some(i);
        }
        i += 1;
    }
    None
}

/// Highlight chosen when the picker opens: the active row, else the first.
pub open spec fn open_highlight(entries: Seq<ModelPickerEntry>) -> usize {
    if entries.len() == 0 {
        0
    } else if exists|j: int| 0 <= j < entries.len() && (#[trigger] entries[j]).is_active {
        (choose|j: int|
            0 <= j < entries.len() && (#[trigger] entries[j]).is_active && forall|k: int|
                0 <= k < j ==> !(#[trigger] entries[k]).is_active) as usize
    } else {
        0
    }
}

/// Opens the picker with the active entry highlighted (or index 0).
pub fn open_picker_at_active(state: &mut ModelPickerState, entries: &[ModelPickerEntry])
    ensures
        final(state)@ == (true, open_highlight(entries@)),
{
    let index = match active_entry_index(entries) {
        Some(i) => i,
        None => 0,
    };
    proof {
        if entries@.len() > 0 {
            if exists|j: int| 0 <= j < entries@.len() && (#[trigger] entries@[j]).is_active {
                let c = choose|j: int|
                    0 <= j < entries@.len() && (#[trigger] entries@[j]).is_active && forall|k: int|
                        0 <= k < j ==> !(#[trigger] entries@[k]).is_active;
                if (c as int) < (index as int) {
                    assert(!entries@[c].is_active);
                }
                if (c as int) > (index as int) {
                    assert(!entries@[index as int].is_active);
                }
            }
        }
    }
    state.open = true;
    state.selected = if entries.len() == 0 {
        0
    } else if index <= entries.len() - 1 {
        index
    } else {
        entries.len() - 1
    };
}

/// Provider lists with unknown ids dropped and known ids resolved.
pub open spec fn typed_lists(listed: Seq<(String, Vec<String>)>) -> Seq<(ModelProviderKind, Seq<Seq<char>>)>
    decreases listed.len(),
{
    if listed.len() == 0 {
        Seq::empty()
    } else {
        let rest = typed_lists(listed.drop_last());
        match provider_from_id(listed.last().0@) {
            Some(k) => rest.push((k, strings_view(listed.last().1@))),
            None => rest,
        }
    }
}

/// The views of typed provider lists.
pub open spec fn lists_view(v: Seq<(ModelProviderKind, Vec<String>)>) -> Seq<(ModelProviderKind, Seq<Seq<char>>)> {
    v.map_values(|p: (ModelProviderKind, Vec<String>)| (p.0, strings_view(p.1@)))
}

fn clone_strings(v: &Vec<String>) -> (r: Vec<String>)
    ensures
        strings_view(r@) == strings_view(v@),
{
    let mut out: Vec<String> = Vec::new();
    let mut i: usize = 0;
    while i < v.len()
        invariant
            i <= v.len(),
            strings_view(out@) == strings_view(v@.take(i as int)),
        decreases v.len() - i,
    {
        out.push(v[i].clone());
        assert(strings_view(v@.take(i + 1)) =~= strings_view(v@.take(i as int)).push(v@[i as int]@));
        assert(strings_view(out@) =~= strings_view(v@.take(i + 1)));
        i += 1;
    }
    assert(v@.take(v.len() as int) =~= v@);
    out
}

proof fn lemma_names_for_views(a: Seq<(ModelProviderKind, Vec<String>)>, b: Seq<(ModelProviderKind, Vec<String>)>, kind: ModelProviderKind)
    requires
        lists_view(a) == lists_view(b),
    ensures
        names_for(a, kind) == names_for(b, kind),
    decreases a.len(),
{
    assert(a.len() == lists_view(a).len());
    assert(b.len() == lists_view(b).len());
    if a.len() > 0 {
        assert(lists_view(a.drop_last()) =~= lists_view(a).drop_last());
        assert(lists_view(b.drop_last()) =~= lists_view(b).drop_last());
        assert(lists_view(a)[a.len() - 1] == lists_view(b)[a.len() - 1]);
        lemma_names_for_views(a.drop_last(), b.drop_last(), kind);
    }
}

/// Builds picker entries from shell `(provider_id, models)` lists and marks active.
///
/// Unknown provider ids are skipped. Order is Ollama then OpenAI.
pub fn entries_from_listed_providers(
    listed: &[(String, Vec<String>)],
    active_provider: Option<&str>,
    active_model: Option<&str>,
) -> (r: Vec<ModelPickerEntry>)
    ensures
        exists|typed: Seq<(ModelProviderKind, Vec<String>)>|
            #![trigger lists_view(typed)]
            lists_view(typed) == typed_lists(listed@) && ({
                let rows = picker_rows(typed);
                &&& r@.len() == rows.len()
                &&& forall|j: int|
                    0 <= j < r@.len() ==> is_entry(
                        #[trigger] r@[j],
                        rows[j].0,
                        rows[j].1,
                        match (active_provider, active_model) {
                            (Some(p), Some(m)) => provider_id_text(rows[j].0) == p@ && rows[j].1
                                == m@,
                            _ => false,
                        },
                    )
            }),
{
    let mut typed: Vec<(ModelProviderKind, Vec<String>)> = Vec::new();
    let mut i: usize = 0;
    while i < listed.len()
        invariant
            i <= listed.len(),
            lists_view(typed@) == typed_lists(listed@.take(i as int)),
        decreases listed.len() - i,
    {
        assert(listed@.take(i + 1).drop_last() =~= listed@.take(i as int));
        assert(listed@.take(i + 1).last() == listed@[i as int]);
        let ghost before = typed@;
        match ModelProviderKind::from_id(listed[i].0.as_str()) {
            Some(kind) => {
                let models = clone_strings(&listed[i].1);
                typed.push((kind, models));
                assert(lists_view(typed@) =~= lists_view(before).push(
                    (kind, strings_view(listed@[i as int].1@)),
                ));
            },
            None => {},
        }
        i += 1;
    }
    assert(listed@.take(listed.len() as int) =~= listed@);
    let entries = build_picker_entries(typed.as_slice());
    let r = match (active_provider, active_model) {
        (Some(provider), Some(model)) => mark_active_entry(entries.as_slice(), provider, model),
        _ => entries,
    };
    proof {
        let rows = picker_rows(typed@);
        assert forall|j: int| 0 <= j < r@.len() implies is_entry(
            #[trigger] r@[j],
            rows[j].0,
            rows[j].1,
            match (active_provider, active_model) {
                (Some(p), Some(m)) => provider_id_text(rows[j].0) == p@ && rows[j].1 == m@,
                _ => false,
            },
        ) by {
            assert(is_entry(entries@[j], rows[j].0, rows[j].1, false));
        }
    }
    r
}

/// Rebuilds entries from fresh provider lists while the picker is open.
///
/// Clamps highlight to a valid index after the list changes. Marks the
/// thread's active model.
pub fn refresh_picker_entries(
    state: &mut ModelPickerState,
    provider_models: &[(ModelProviderKind, Vec<String>)],
    active_provider: &str,
    active_model: &str,
) -> (r: Vec<ModelPickerEntry>)
    ensures
        ({
            let rows = picker_rows(provider_models@);
            &&& r@.len() == rows.len()
            &&& forall|j: int|
                0 <= j < r@.len() ==> is_entry(
                    #[trigger] r@[j],
                    rows[j].0,
                    rows[j].1,
                    provider_id_text(rows[j].0) == active_provider@ && rows[j].1 == active_model@,
                )
        }),
        final(state)@.0 == old(state)@.0,
        final(state)@.1 == if old(state)@.0 {
            if r@.len() == 0 {
                0
            } else if old(state)@.1 >= r@.len() {
                (r@.len() - 1) as usize
            } else {
                old(state)@.1
            }
        } else {
            old(state)@.1
        },
{
    let built = build_picker_entries(provider_models);
    let entries = mark_active_entry(built.as_slice(), active_provider, active_model);
    proof {
        let rows = picker_rows(provider_models@);
        assert forall|j: int| 0 <= j < entries@.len() implies is_entry(
            #[trigger] entries@[j],
            rows[j].0,
            rows[j].1,
            provider_id_text(rows[j].0) == active_provider@ && rows[j].1 == active_model@,
        ) by {
            assert(is_entry(built@[j], rows[j].0, rows[j].1, false));
        }
    }
    if state.is_open() {
        if entries.len() == 0 {
            state.selected = 0;
        } else if state.selected >= entries.len() {
            state.selected = entries.len() - 1;
        }
    }
    entries
}

/// Visual tone for a picker row.
#[derive(Debug, Clone, Copy, PartialEq, Eq, Structural)]
pub enum PickerRowTone {
    /// Idle row.
    Default,
    /// Keyboard / hover highlight.
    Highlighted,
    /// Currently active thread model (not highlighted).
    Active,
}

/// Resolves row tone from highlight + active flags (highlight wins).
pub fn picker_row_tone(highlighted: bool, is_active: bool) -> (r: PickerRowTone)
    ensures
        r == if highlighted {
            PickerRowTone::Highlighted
        } else if is_active {
            PickerRowTone::Active
        } else {
            PickerRowTone::Default
        },
{
    if highlighted {
        PickerRowTone::Highlighted
    } else if is_active {
        PickerRowTone::Active
    } else {
        PickerRowTone::Default
    }
}

} // verus!
