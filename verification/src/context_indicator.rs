//! Composer context/token size estimation helpers.

use crate::text::{
    chars_of, dec, find_chars, fmt_usize, lower_chars, lower_seq, owned, slice_to_vec, starts,
    starts_with_chars, string_of, strings_view,
};
use vstd::prelude::*;

verus! {

/// Visual urgency band for the context indicator (green → yellow → red).
#[derive(Debug, Clone, Copy, PartialEq, Eq, Structural)]
pub enum ContextFillLevel {
    /// Plenty of room remaining (< 60% of the displayed limit).
    Comfortable,
    /// Getting full (60–85%).
    Elevated,
    /// Near or over the limit (≥ 85%), or omission is imminent.
    Critical,
}

/// Inputs used to project the next provider request's context size.
#[derive(Debug, Clone, Copy)]
pub struct ContextEstimateInput<'a> {
    /// Thread message bodies in chronological order (oldest first).
    pub message_contents: &'a [String],
    /// Current composer draft text (not yet sent).
    pub composer_text: &'a str,
    /// Approximate character size of pending attachment context blocks.
    pub attachment_chars: usize,
    /// Character length of the effective system prompt that will be sent.
    pub system_prompt_chars: usize,
    /// Active model name, when known (used to resolve context windows).
    pub model_name: Option<&'a str>,
    /// Max conversation messages included in a request (app cap).
    pub max_messages: usize,
    /// Max conversation characters included in a request (app cap).
    pub max_chars: usize,
}

/// Rough token estimate: ~4 characters per token (ceiling).
pub fn estimate_tokens_from_chars(chars: usize) -> (r: usize)
    ensures
        r == (chars + 3) / 4,
{
    chars / 4 + if chars % 4 != 0 {
        1
    } else {
        0
    }
}

/// Compact display text for a token count (`850`, `1.2k`, `128k`, `2M`).
pub open spec fn token_count_text(t: nat) -> Seq<char> {
    if t < 1000 {
        dec(t)
    } else if t < 10000 {
        let tenths = (t + 50) / 100;
        if tenths % 10 == 0 {
            dec(tenths / 10) + "k"@
        } else {
            dec(tenths / 10) + "."@ + dec(tenths % 10) + "k"@
        }
    } else if t < 1000000 {
        dec((t + 500) / 1000) + "k"@
    } else {
        dec((t + 500000) / 1000000) + "M"@
    }
}

/// Compact display for token counts (`850`, `1.2k`, `128k`).
pub fn format_token_count(tokens: usize) -> (r: String)
    requires
        tokens + 500000 <= usize::MAX,
    ensures
        r@ == token_count_text(tokens as nat),
{
    if tokens < 1000 {
        fmt_usize(tokens)
    } else if tokens < 10000 {
        let tenths = (tokens + 50) / 100;
        if tenths % 10 == 0 {
            let mut r = fmt_usize(tenths / 10);
            r.append("k");
            r
        } else {
            let mut r = fmt_usize(tenths / 10);
            r.append(".");
            let f = fmt_usize(tenths % 10);
            r.append(f.as_str());
            r.append("k");
            r
        }
    } else if tokens < 1000000 {
        let mut r = fmt_usize((tokens + 500) / 1000);
        r.append("k");
        r
    } else {
        let mut r = fmt_usize((tokens + 500000) / 1000000);
        r.append("M");
        r
    }
}

/// A model-name separator (`:`, `/`, `@`).
pub open spec fn is_model_sep(c: char) -> bool {
    c == ':' || c == '/' || c == '@'
}

/// The model family: text before the first separator, lower-cased (ASCII).
pub open spec fn model_base(name: Seq<char>) -> Seq<char> {
    if exists|i: int| 0 <= i < name.len() && #[trigger] is_model_sep(name[i]) {
        let k = choose|i: int|
            0 <= i < name.len() && is_model_sep(#[trigger] name[i]) && forall|j: int|
                0 <= j < i ==> !is_model_sep(#[trigger] name[j]);
        lower_seq(name.take(k))
    } else {
        lower_seq(name)
    }
}

/// Lower-cased family of a model name (`split([':', '/', '@']).next()`).
pub fn model_base_exec(name: &str) -> (r: Vec<char>)
    ensures
        r@ == model_base(name@),
{
    let v = chars_of(name);
    let mut i: usize = 0;
    while i < v.len()
        invariant
            v@ == name@,
            i <= v.len(),
            forall|j: int| 0 <= j < i ==> !is_model_sep(#[trigger] v@[j]),
        decreases v.len() - i,
    {
        let c = v[i];
        if c == ':' || c == '/' || c == '@' {
            let head = slice_to_vec(v.as_slice(), 0, i);
            proof {
                assert(is_model_sep(name@[i as int]));
                let k = choose|k: int|
                    0 <= k < name@.len() && is_model_sep(#[trigger] name@[k]) && forall|j: int|
                        0 <= j < k ==> !is_model_sep(#[trigger] name@[j]);
                if k < i {
                    assert(!is_model_sep(name@[k]));
                }
                if k > i {
                    assert(!is_model_sep(name@[i as int]));
                }
                assert(k == i);
                assert(head@ =~= name@.take(i as int));
            }
            return lower_chars(head.as_slice());
        }
        i += 1;
    }
    lower_chars(v.as_slice())
}

/// Known context window (tokens) of a model family.
pub open spec fn context_window_of(b: Seq<char>) -> Option<usize> {
    if starts(b, "gpt-4o"@) || starts(b, "chatgpt-4o"@) {
        Some(128000)
    } else if starts(b, "gpt-4-turbo"@) || starts(b, "gpt-4.1"@) {
        Some(128000)
    } else if starts(b, "gpt-4"@) {
        Some(8192)
    } else if starts(b, "gpt-3.5"@) {
        Some(16385)
    } else if starts(b, "o1"@) || starts(b, "o3"@) || starts(b, "o4"@) {
        Some(200000)
    } else if starts(b, "llama3.2"@) || starts(b, "llama3.1"@) || starts(b, "llama3"@) {
        Some(128000)
    } else if starts(b, "llama2"@) {
        Some(4096)
    } else if starts(b, "qwen2.5"@) || starts(b, "qwen2"@) || starts(b, "qwen"@) {
        Some(32768)
    } else if starts(b, "mistral"@) || starts(b, "mixtral"@) {
        Some(32768)
    } else if starts(b, "gemma2"@) || starts(b, "gemma"@) {
        Some(8192)
    } else if starts(b, "phi3"@) || starts(b, "phi-3"@) || starts(b, "phi4"@) {
        Some(16384)
    } else if starts(b, "deepseek"@) {
        Some(64000)
    } else if starts(b, "codellama"@) {
        Some(16384)
    } else {
        None
    }
}

fn has_prefix(b: &[char], p: &str) -> (r: bool)
    ensures
        r == starts(b@, p@),
{
    let pv = chars_of(p);
    starts_with_chars(b, pv.as_slice())
}

/// Resolves a known context window (tokens) for common Ollama / OpenAI model names.
///
/// Returns [`None`] when the window is unknown so callers can fall back to the
/// app character cap.
pub fn resolve_model_context_window(model_name: &str) -> (r: Option<usize>)
    ensures
        r == context_window_of(model_base(model_name@)),
{
    let bv = model_base_exec(model_name);
    let b = bv.as_slice();
    if has_prefix(b, "gpt-4o") || has_prefix(b, "chatgpt-4o") {
        return Some(128000);
    }
    if has_prefix(b, "gpt-4-turbo") || has_prefix(b, "gpt-4.1") {
        return Some(128000);
    }
    if has_prefix(b, "gpt-4") {
        return Some(8192);
    }
    if has_prefix(b, "gpt-3.5") {
        return Some(16385);
    }
    if has_prefix(b, "o1") || has_prefix(b, "o3") || has_prefix(b, "o4") {
        return Some(200000);
    }
    if has_prefix(b, "llama3.2") || has_prefix(b, "llama3.1") || has_prefix(b, "llama3") {
        return Some(128000);
    }
    if has_prefix(b, "llama2") {
        return Some(4096);
    }
    if has_prefix(b, "qwen2.5") || has_prefix(b, "qwen2") || has_prefix(b, "qwen") {
        return Some(32768);
    }
    if has_prefix(b, "mistral") || has_prefix(b, "mixtral") {
        return Some(32768);
    }
    if has_prefix(b, "gemma2") || has_prefix(b, "gemma") {
        return Some(8192);
    }
    if has_prefix(b, "phi3") || has_prefix(b, "phi-3") || has_prefix(b, "phi4") {
        return Some(16384);
    }
    if has_prefix(b, "deepseek") {
        return Some(64000);
    }
    if has_prefix(b, "codellama") {
        return Some(16384);
    }
    None
}

/// Walks the history from the newest message while both caps allow: `j`
/// messages remain unvisited, `n` count toward the message cap and `total`
/// chars are used. Returns the chars used and the messages counted.
pub open spec fn history_walk(
    msgs: Seq<Seq<char>>,
    j: int,
    n: int,
    total: int,
    max_msgs: int,
    max_chars: int,
) -> (int, int)
    decreases j,
{
    if j <= 0 || n >= max_msgs || total + msgs[j - 1].len() > max_chars {
        (total, n)
    } else {
        history_walk(msgs, j - 1, n + 1, total + msgs[j - 1].len(), max_msgs, max_chars)
    }
}

/// Chars of the pending draft plus the history that fits the caps (the draft
/// counts as the newest message), and whether older history is left out.
pub open spec fn history_chars(msgs: Seq<Seq<char>>, pending: int, max_msgs: int, max_chars: int) -> (
    int,
    bool,
) {
    let p = if pending > 0 {
        1int
    } else {
        0
    };
    let w = history_walk(msgs, msgs.len() as int, p, pending, max_msgs, max_chars);
    (w.0, pending > max_chars || w.1 - p < msgs.len())
}

proof fn lemma_history_walk(
    msgs: Seq<Seq<char>>,
    j: int,
    n: int,
    total: int,
    max_msgs: int,
    max_chars: int,
)
    requires
        0 <= j <= msgs.len(),
    ensures
        n <= history_walk(msgs, j, n, total, max_msgs, max_chars).1 <= n + j,
        history_walk(msgs, j, n, total, max_msgs, max_chars).1 < n + j ==> j > 0,
        total <= history_walk(msgs, j, n, total, max_msgs, max_chars).0,
        history_walk(msgs, j, n, total, max_msgs, max_chars).0 == total || history_walk(
            msgs,
            j,
            n,
            total,
            max_msgs,
            max_chars,
        ).0 <= max_chars,
    decreases j,
{
    if !(j <= 0 || n >= max_msgs || total + msgs[j - 1].len() > max_chars) {
        lemma_history_walk(msgs, j - 1, n + 1, total + msgs[j - 1].len(), max_msgs, max_chars);
    }
}

fn count_included_history_chars(
    message_contents: &[String],
    pending_chars: usize,
    max_messages: usize,
    max_chars: usize,
) -> (r: (usize, bool))
    ensures
        (r.0 as int, r.1) == history_chars(
            strings_view(message_contents@),
            pending_chars as int,
            max_messages as int,
            max_chars as int,
        ),
        r.0 == pending_chars || r.0 <= max_chars,
        r.0 >= pending_chars,
{
    let ghost ms = strings_view(message_contents@);
    let ghost p: int = if pending_chars > 0 {
        1
    } else {
        0
    };
    let mut included: usize = if pending_chars > 0 {
        1
    } else {
        0
    };
    let mut total = pending_chars;
    let mut j = message_contents.len();
    let mut done = false;
    proof {
        lemma_history_walk(ms, j as int, p, total as int, max_messages as int, max_chars as int);
    }
    while j > 0 && !done
        invariant
            ms == strings_view(message_contents@),
            j <= message_contents.len(),
            included as int == p + (message_contents.len() - j),
            history_walk(ms, ms.len() as int, p, pending_chars as int, max_messages as int, max_chars as int)
                == (if done {
                (total as int, included as int)
            } else {
                history_walk(ms, j as int, included as int, total as int, max_messages as int, max_chars as int)
            }),
            total == pending_chars || total <= max_chars,
            total >= pending_chars,
            done ==> j > 0,
        decreases j + (if done {
            0int
        } else {
            1int
        }),
    {
        if included >= max_messages {
            done = true;
        } else {
            let c = message_contents[j - 1].as_str().unicode_len();
            assert(ms[j - 1] == message_contents@[j - 1]@);
            if total > max_chars || c > max_chars - total {
                done = true;
            } else {
                total = total + c;
                included = included + 1;
                j = j - 1;
            }
        }
    }
    let omitted = pending_chars > max_chars || included - (if pending_chars > 0 {
        1
    } else {
        0
    }) < message_contents.len();
    (total, omitted)
}

/// Integer part of the context indicator: everything but the fill ratio.
#[derive(Debug, Clone, PartialEq, Eq)]
pub struct ContextProjection {
    /// Approximate tokens that would be included in the next request.
    pub estimated_tokens: usize,
    /// Characters counted toward the estimate (system + included history + pending).
    pub used_chars: usize,
    /// Model context window in tokens when known.
    pub limit_tokens: Option<usize>,
    /// Effective character budget used for the fill ratio.
    pub limit_chars: usize,
    /// True when older history would be dropped by message/char caps.
    pub messages_omitted: bool,
    /// Compact label shown near the composer (e.g. `~1.2k / 128k tokens`).
    pub summary_label: String,
    /// Optional omission hint when history will be truncated.
    pub omission_label: Option<&'static str>,
}

/// Model window in tokens, when the model is named and known.
pub open spec fn limit_tokens_of(model_name: Option<&str>) -> Option<usize> {
    match model_name {
        Some(n) => context_window_of(model_base(n@)),
        None => None,
    }
}

/// Tokens shown as the limit: the model window, else the app cap.
pub open spec fn display_limit_of(input: ContextEstimateInput) -> int {
    match limit_tokens_of(input.model_name) {
        Some(t) => t as int,
        None => (input.max_chars + input.system_prompt_chars + 3) / 4,
    }
}

/// The inputs fit the machine's counters.
pub open spec fn projection_fits(input: ContextEstimateInput) -> bool {
    &&& input.composer_text@.len() + input.attachment_chars + input.system_prompt_chars <= usize::MAX
    &&& input.max_chars + input.system_prompt_chars <= usize::MAX
}

/// What [`project_context`] computes from its input.
pub open spec fn projection_of(input: ContextEstimateInput, r: ContextProjection) -> bool {
    let pending = input.composer_text@.len() + input.attachment_chars;
    let h = history_chars(
        strings_view(input.message_contents@),
        pending,
        input.max_messages as int,
        input.max_chars as int,
    );
    let display = display_limit_of(input);
    &&& r.used_chars == input.system_prompt_chars + h.0
    &&& r.estimated_tokens == (r.used_chars + 3) / 4
    &&& r.limit_tokens == limit_tokens_of(input.model_name)
    &&& r.limit_chars == (if display * 4 > usize::MAX {
        usize::MAX as int
    } else if display * 4 < 1 {
        1
    } else {
        display * 4
    })
    &&& r.messages_omitted == h.1
    &&& r.summary_label@ == "~"@ + token_count_text(r.estimated_tokens as nat) + " / "@
        + token_count_text(display as nat) + " tokens"@
    &&& (r.omission_label is Some <==> h.1)
    &&& (r.omission_label matches Some(l) ==> l@ == "Older messages will be omitted"@)
}

/// Projects context usage for the next request: counts, limit and labels.
pub fn project_context(input: ContextEstimateInput<'_>) -> (r: ContextProjection)
    requires
        projection_fits(input),
    ensures
        projection_of(input, r),
        r.used_chars >= input.system_prompt_chars + input.composer_text@.len() + input.attachment_chars,
{
    let system_chars = input.system_prompt_chars;
    let pending_chars = input.composer_text.unicode_len() + input.attachment_chars;
    let (history_and_pending_chars, messages_omitted) = count_included_history_chars(
        input.message_contents,
        pending_chars,
        input.max_messages,
        input.max_chars,
    );
    let used_chars = system_chars + history_and_pending_chars;
    let estimated_tokens = estimate_tokens_from_chars(used_chars);
    let limit_tokens = match input.model_name {
        Some(n) => resolve_model_context_window(n),
        None => None,
    };
    let app_limit_tokens = estimate_tokens_from_chars(input.max_chars + system_chars);
    let display_limit_tokens = match limit_tokens {
        Some(t) => t,
        None => app_limit_tokens,
    };
    let scaled = display_limit_tokens.checked_mul(4);
    let limit_chars = match scaled {
        Some(x) => if x < 1 {
            1
        } else {
            x
        },
        None => usize::MAX,
    };
    let mut summary_label = String::from_str("~");
    let a = format_token_count(estimated_tokens);
    summary_label.append(a.as_str());
    summary_label.append(" / ");
    let b = format_token_count(display_limit_tokens);
    summary_label.append(b.as_str());
    summary_label.append(" tokens");
    let omission_label = if messages_omitted {
        Some("Older messages will be omitted")
    } else {
        None
    };
    ContextProjection {
        estimated_tokens,
        used_chars,
        limit_tokens,
        limit_chars,
        messages_omitted,
        summary_label,
        omission_label,
    }
}

/// The fill band shown: imminent omission of older messages is critical
/// whatever the fill ratio says; otherwise the ratio's band stands.
pub fn escalate_for_omission(level: ContextFillLevel, messages_omitted: bool) -> (r: ContextFillLevel)
    ensures
        r == (if messages_omitted {
            ContextFillLevel::Critical
        } else {
            level
        }),
{
    if messages_omitted {
        ContextFillLevel::Critical
    } else {
        level
    }
}

/// `gpt-4.1` and `gpt-4-turbo` families have a 128k-token window; the
/// generic `gpt-4` window of 8192 tokens is only for `gpt-4` families that
/// match none of the more specific prefixes (`gpt-4o`, `gpt-4-turbo`,
/// `gpt-4.1`).
pub proof fn law_specific_gpt4_families_win(b: Seq<char>)
    ensures
        starts(b, "gpt-4.1"@) || starts(b, "gpt-4-turbo"@) ==> context_window_of(b) == Some(
            128000usize,
        ),
        starts(b, "gpt-4o"@) ==> context_window_of(b) == Some(128000usize),
        context_window_of(b) == Some(8192usize) && starts(b, "gpt-4"@) ==> !starts(b, "gpt-4o"@)
            && !starts(b, "gpt-4.1"@) && !starts(b, "gpt-4-turbo"@),
{
    reveal_strlit("gpt-4.1");
    reveal_strlit("gpt-4-turbo");
    reveal_strlit("gpt-4o");
    reveal_strlit("chatgpt-4o");
    reveal_strlit("gpt-4");
    if starts(b, "gpt-4.1"@) || starts(b, "gpt-4-turbo"@) {
        assert(!starts(b, "gpt-4o"@)) by {
            if starts(b, "gpt-4o"@) {
                assert(b[5] == "gpt-4o"@[5]);
            }
        }
        assert(!starts(b, "chatgpt-4o"@)) by {
            if starts(b, "chatgpt-4o"@) {
                assert(b[0] == "chatgpt-4o"@[0]);
                assert(b[0] == "gpt-4"@[0]);
            }
        }
    }
    if starts(b, "gpt-4o"@) {
        assert(b.subrange(0, 6) =~= "gpt-4o"@);
    }
}

} // verus!
