//! Visual polish: empty/error presentations and streaming motion timing.

use crate::text::{chars_of, concat3, contains, contains_chars, is_ascii_text, lower_seq, owned, to_lowercase, unicode_lowercase};
use vstd::prelude::*;

verus! {

/// Elevation level for soft shadows on raised surfaces.
#[derive(Debug, Clone, Copy, PartialEq, Eq, Structural)]
pub enum Elevation {
    /// Code blocks, preview cards, compact chrome.
    Low,
    /// Composer, sidebar, side panels.
    Medium,
    /// Dialogs and modal overlays.
    High,
}

/// Major empty-state surfaces.
#[derive(Debug, Clone, Copy, PartialEq, Eq, Structural)]
pub enum EmptyStateKind {
    /// Sidebar thread list is empty.
    NoThreads,
    /// Active thread has no messages yet.
    EmptyThread,
    /// Artifacts panel has nothing saved.
    NoArtifacts,
    /// Memories panel has nothing saved.
    NoMemories,
    /// A search / completion query returned no hits.
    NoSearchResults,
    /// Local Ollama daemon is unreachable.
    OllamaOffline,
    /// Ollama is up but no models are installed.
    NoModelsInstalled,
}

/// Designed empty-state copy: icon glyph, title, body, and optional next step.
#[derive(Debug, Clone, Copy, PartialEq, Eq)]
pub struct EmptyStateContent {
    /// Short glyph or symbol (not emoji-heavy).
    pub icon: &'static str,
    /// Primary headline.
    pub title: &'static str,
    /// Supporting explanation.
    pub body: &'static str,
    /// Actionable next-step hint.
    pub action_hint: Option<&'static str>,
}

/// `icon\ntitle\nbody`, followed by `\nhint` when a hint is given.
pub open spec fn block_text(
    icon: Seq<char>,
    title: Seq<char>,
    body: Seq<char>,
    hint: Option<Seq<char>>,
) -> Seq<char> {
    let base = icon + "\n"@ + title + "\n"@ + body;
    match hint {
        Some(h) => base + "\n"@ + h,
        None => base,
    }
}

/// The char view of an optional static string.
pub open spec fn opt_str_view(o: Option<&'static str>) -> Option<Seq<char>> {
    match o {
        Some(s) => Some(s@),
        None => None,
    }
}

fn block(icon: &str, title: &str, body: &str, hint: Option<&str>) -> (r: String)
    ensures
        r@ == block_text(
            icon@,
            title@,
            body@,
            match hint {
                Some(h) => Some(h@),
                None => None,
            },
        ),
{
    let mut out = owned(icon);
    out.append("\n");
    out.append(title);
    out.append("\n");
    out.append(body);
    match hint {
        Some(h) => {
            out.append("\n");
            out.append(h);
        },
        None => {},
    }
    out
}

impl EmptyStateContent {
    /// Formats a multi-line block suitable for text-only surfaces.
    pub fn display_text(self) -> (r: String)
        ensures
            r@ == block_text(self.icon@, self.title@, self.body@, opt_str_view(self.action_hint)),
    {
        block(self.icon, self.title, self.body, self.action_hint)
    }
}

/// The designed `(icon, title, body, hint)` copy of an empty state.
pub open spec fn empty_state_text(kind: EmptyStateKind) -> (Seq<char>, Seq<char>, Seq<char>, Seq<
    char,
>) {
    match kind {
        EmptyStateKind::NoThreads => (
            "○"@,
            "No threads yet"@,
            "Start a new chat to keep conversations organized in the sidebar."@,
            "Click “New Chat” to begin."@,
        ),
        EmptyStateKind::EmptyThread => (
            "◌"@,
            "Start a conversation"@,
            "Ask anything — your messages will appear here."@,
            "Type in the composer and press Enter to send."@,
        ),
        EmptyStateKind::NoArtifacts => (
            "◇"@,
            "No artifacts yet"@,
            "Save an assistant message as an artifact to see it here."@,
            "Use “Save as artifact” on an assistant reply."@,
        ),
        EmptyStateKind::NoMemories => (
            "◎"@,
            "No memories yet"@,
            "Saved memories help Ronin recall facts across threads."@,
            "Save a memory from a useful assistant reply."@,
        ),
        EmptyStateKind::NoSearchResults => (
            "⌕"@,
            "No results"@,
            "Nothing matched this search. Try a shorter path or different name."@,
            "Clear a few characters and search again."@,
        ),
        EmptyStateKind::OllamaOffline => (
            "⚠"@,
            "Ollama is not running"@,
            "Ronin cannot reach the local Ollama server."@,
            "Start it with `ollama serve`, or install from https://ollama.com."@,
        ),
        EmptyStateKind::NoModelsInstalled => (
            "◻"@,
            "No models installed"@,
            "Ollama is reachable but has no models to chat with."@,
            "Try: ollama pull llama3.2"@,
        ),
    }
}

/// Builds designed empty-state content for `kind`.
pub fn empty_state(kind: EmptyStateKind) -> (r: EmptyStateContent)
    ensures
        (r.icon@, r.title@, r.body@, r.action_hint.unwrap()@) == empty_state_text(kind),
        r.action_hint is Some,
{
    match kind {
        EmptyStateKind::NoThreads => EmptyStateContent {
            icon: "○",
            title: "No threads yet",
            body: "Start a new chat to keep conversations organized in the sidebar.",
            action_hint: Some("Click “New Chat” to begin."),
        },
        EmptyStateKind::EmptyThread => EmptyStateContent {
            icon: "◌",
            title: "Start a conversation",
            body: "Ask anything — your messages will appear here.",
            action_hint: Some("Type in the composer and press Enter to send."),
        },
        EmptyStateKind::NoArtifacts => EmptyStateContent {
            icon: "◇",
            title: "No artifacts yet",
            body: "Save an assistant message as an artifact to see it here.",
            action_hint: Some("Use “Save as artifact” on an assistant reply."),
        },
        EmptyStateKind::NoMemories => EmptyStateContent {
            icon: "◎",
            title: "No memories yet",
            body: "Saved memories help Ronin recall facts across threads.",
            action_hint: Some("Save a memory from a useful assistant reply."),
        },
        EmptyStateKind::NoSearchResults => EmptyStateContent {
            icon: "⌕",
            title: "No results",
            body: "Nothing matched this search. Try a shorter path or different name.",
            action_hint: Some("Clear a few characters and search again."),
        },
        EmptyStateKind::OllamaOffline => EmptyStateContent {
            icon: "⚠",
            title: "Ollama is not running",
            body: "Ronin cannot reach the local Ollama server.",
            action_hint: Some("Start it with `ollama serve`, or install from https://ollama.com."),
        },
        EmptyStateKind::NoModelsInstalled => EmptyStateContent {
            icon: "◻",
            title: "No models installed",
            body: "Ollama is reachable but has no models to chat with.",
            action_hint: Some("Try: ollama pull llama3.2"),
        },
    }
}

/// Categories of user-visible failures that share one presentation pattern.
#[derive(Debug, Clone, Copy, PartialEq, Eq, Structural)]
pub enum ErrorKind {
    /// Provider configuration or connectivity failure.
    Provider,
    /// Chat stream interrupted or failed mid-response.
    StreamFailure,
    /// Database schema migration failure at startup.
    MigrationFailure,
    /// Attachment / clipboard / screenshot failure.
    Attachment,
}

/// Consistent error chrome: icon, title, detail message, action hint.
#[derive(Debug, Clone, PartialEq, Eq)]
pub struct ErrorPresentation {
    /// Short glyph for the error row.
    pub icon: &'static str,
    /// Short headline.
    pub title: &'static str,
    /// Detail including the underlying error text.
    pub message: String,
    /// Optional recovery hint.
    pub action_hint: Option<&'static str>,
}

/// Whether the lower-cased text contains `retry`.
pub open spec fn mentions_retry(s: Seq<char>) -> bool {
    contains(unicode_lowercase(s), "retry"@)
}

/// [`mentions_retry`] on ASCII text, where lower-casing is ASCII's.
pub open spec fn mentions_retry_ascii(s: Seq<char>) -> bool {
    contains(lower_seq(s), "retry"@)
}

fn mentions_retry_exec(s: &str) -> (r: bool)
    ensures
        r == mentions_retry(s@),
        is_ascii_text(s@) ==> r == mentions_retry_ascii(s@),
{
    let l = to_lowercase(s);
    let lv = chars_of(l.as_str());
    let rv = chars_of("retry");
    contains_chars(lv.as_slice(), rv.as_slice())
}

impl ErrorPresentation {
    /// True when title, message, or hint mentions retrying.
    pub fn body_mentions_retry(&self) -> (r: bool)
        ensures
            r == (mentions_retry(self.title@) || mentions_retry(self.message@) || mentions_retry(
                match self.action_hint {
                    Some(h) => h@,
                    None => ""@,
                },
            )),
            ({
                let h = match self.action_hint {
                    Some(h) => h@,
                    None => ""@,
                };
                is_ascii_text(self.title@) && is_ascii_text(self.message@) && is_ascii_text(h)
                    ==> r == (mentions_retry_ascii(self.title@) || mentions_retry_ascii(
                    self.message@,
                ) || mentions_retry_ascii(h))
            }),
    {
        let hint = match self.action_hint {
            Some(h) => h,
            None => "",
        };
        mentions_retry_exec(self.title) || mentions_retry_exec(self.message.as_str())
            || mentions_retry_exec(hint)
    }

    /// Formats a multi-line block for text-only surfaces.
    pub fn display_text(&self) -> (r: String)
        ensures
            r@ == block_text(
                self.icon@,
                self.title@,
                self.message@,
                opt_str_view(self.action_hint),
            ),
    {
        block(self.icon, self.title, self.message.as_str(), self.action_hint)
    }
}

/// The `(title, hint)` copy of an error kind (the icon is always `!`).
pub open spec fn error_text(kind: ErrorKind) -> (Seq<char>, Seq<char>) {
    match kind {
        ErrorKind::Provider => ("Provider error"@, "Check provider settings, then try again."@),
        ErrorKind::StreamFailure => (
            "Stream failed"@,
            "Retry the message, or cancel and send again."@,
        ),
        ErrorKind::MigrationFailure => (
            "Database migration failed"@,
            "Back up your data directory, then restart Ronin."@,
        ),
        ErrorKind::Attachment => (
            "Attachment error"@,
            "Remove the attachment or try a different file."@,
        ),
    }
}

/// Builds a consistent, actionable error presentation.
pub fn error_presentation(kind: ErrorKind, detail: &str) -> (r: ErrorPresentation)
    ensures
        r.icon@ == "!"@,
        r.message@ == detail@,
        r.action_hint is Some,
        (r.title@, r.action_hint.unwrap()@) == error_text(kind),
{
    match kind {
        ErrorKind::Provider => ErrorPresentation {
            icon: "!",
            title: "Provider error",
            message: owned(detail),
            action_hint: Some("Check provider settings, then try again."),
        },
        ErrorKind::StreamFailure => ErrorPresentation {
            icon: "!",
            title: "Stream failed",
            message: owned(detail),
            action_hint: Some("Retry the message, or cancel and send again."),
        },
        ErrorKind::MigrationFailure => ErrorPresentation {
            icon: "!",
            title: "Database migration failed",
            message: owned(detail),
            action_hint: Some("Back up your data directory, then restart Ronin."),
        },
        ErrorKind::Attachment => ErrorPresentation {
            icon: "!",
            title: "Attachment error",
            message: owned(detail),
            action_hint: Some("Remove the attachment or try a different file."),
        },
    }
}

/// Timing tokens for cursor blink and generating indicator.
#[derive(Debug, Clone, Copy, PartialEq, Eq, Structural)]
pub struct StreamingMotion {
    /// Full cursor blink period in milliseconds.
    pub cursor_cycle_ms: u64,
    /// How long the cursor stays visible within each cycle.
    pub cursor_visible_ms: u64,
    /// Full generating-indicator pulse period in milliseconds.
    pub generate_pulse_ms: u64,
}

/// Returns the default smooth streaming motion profile.
pub fn streaming_motion() -> (r: StreamingMotion)
    ensures
        r.cursor_cycle_ms == 800,
        r.cursor_visible_ms == 480,
        r.generate_pulse_ms == 900,
{
    StreamingMotion { cursor_cycle_ms: 800, cursor_visible_ms: 480, generate_pulse_ms: 900 }
}

/// Whether the caret should paint at `elapsed_ms` under `motion`.
pub fn cursor_visible_at(elapsed_ms: u64, motion: &StreamingMotion) -> (r: bool)
    requires
        motion.cursor_cycle_ms > 0,
    ensures
        r == (elapsed_ms % motion.cursor_cycle_ms < motion.cursor_visible_ms),
{
    (elapsed_ms % motion.cursor_cycle_ms) < motion.cursor_visible_ms
}

/// Length of one step of the three-step generating indicator.
pub open spec fn pulse_step(motion: StreamingMotion) -> int {
    if motion.generate_pulse_ms / 3 >= 1 {
        (motion.generate_pulse_ms / 3) as int
    } else {
        1
    }
}

/// Phase (0..=2) for a three-step generating indicator at `elapsed_ms`.
pub fn generating_pulse_phase(elapsed_ms: u64, motion: &StreamingMotion) -> (r: u8)
    ensures
        r == ((elapsed_ms as int) / pulse_step(*motion)) % 3,
        r < 3,
{
    let third = motion.generate_pulse_ms / 3;
    let step = if third >= 1 {
        third
    } else {
        1
    };
    ((elapsed_ms / step) % 3) as u8
}

/// Label for the generating indicator at `elapsed_ms`.
pub fn generating_label(elapsed_ms: u64, motion: &StreamingMotion) -> (r: String)
    ensures
        ({
            let p = ((elapsed_ms as int) / pulse_step(*motion)) % 3;
            r@ == "Generating response"@ + (if p == 0 {
                "."@
            } else if p == 1 {
                ".."@
            } else {
                "..."@
            })
        }),
{
    let dots = match generating_pulse_phase(elapsed_ms, motion) {
        0 => ".",
        1 => "..",
        _ => "...",
    };
    let mut out = owned("Generating response");
    out.append(dots);
    out
}

} // verus!
