//! Presentation model for the dedicated Artifacts panel.

use crate::text::{chars_of, concat2, owned, slice_to_vec, string_of, trim, trim_str};
use vstd::prelude::*;

verus! {

/// Maximum characters shown in an artifact preview card snippet.
pub const ARTIFACT_SNIPPET_CHARS: usize = 100;

/// Kind badge label for document artifact preview cards.
pub const ARTIFACT_KIND_BADGE: &'static str = "Artifact";

/// Kind badge label for code-snippet artifact preview cards.
pub const SNIPPET_KIND_BADGE: &'static str = "Snippet";

/// Empty-state copy shown when the panel has no artifacts.
pub const ARTIFACTS_EMPTY_STATE: &'static str =
    "No artifacts yet. Save an assistant message as an artifact to see it here.";

/// A preview card for one artifact in the panel list.
#[derive(Debug, Clone, PartialEq, Eq)]
pub struct ArtifactPreviewCard {
    /// Artifact id.
    pub id: String,
    /// Display title.
    pub title: String,
    /// Kind badge label (e.g. `"Artifact"` or `"Snippet"`).
    pub kind: String,
    /// Fence language for snippet artifacts, when present.
    pub language: Option<String>,
    /// Truncated content snippet.
    pub snippet: String,
    /// Source thread id.
    pub source_thread_id: String,
    /// Source thread title for display.
    pub source_thread_title: String,
}

/// Label for saving a fenced code block as a snippet artifact.
pub fn save_code_block_as_snippet_label() -> (r: &'static str)
    ensures
        r@ == "Save snippet"@,
{
    "Save snippet"
}

/// Default title when saving a code block fence as a snippet.
pub fn snippet_title_from_language(language: Option<&str>) -> (r: String)
    ensures
        r@ == match language {
            Some(l) if trim(l@).len() > 0 => trim(l@) + " snippet"@,
            _ => "code snippet"@,
        },
{
    match language {
        Some(l) => {
            let t = trim_str(l);
            if t.len() > 0 {
                let lang = string_of(t.as_slice());
                return concat2(lang.as_str(), " snippet");
            }
        },
        None => {},
    }
    owned("code snippet")
}

/// The first `max_chars` chars of `content`, with `…` appended when some were dropped.
pub open spec fn snippet_of(content: Seq<char>, max_chars: nat) -> Seq<char> {
    if content.len() > max_chars {
        content.take(max_chars as int) + "…"@
    } else {
        content
    }
}

/// Truncates content to `max_chars` Unicode characters for preview cards.
pub fn content_snippet(content: &str, max_chars: usize) -> (r: String)
    ensures
        r@ == snippet_of(content@, max_chars as nat),
{
    let v = chars_of(content);
    if v.len() > max_chars {
        let head = slice_to_vec(v.as_slice(), 0, max_chars);
        assert(head@ =~= content@.take(max_chars as int));
        let s = string_of(head.as_slice());
        concat2(s.as_str(), "…")
    } else {
        owned(content)
    }
}

/// Returns empty-state copy when there are no preview cards; otherwise `None`.
pub fn artifacts_empty_state(cards: &[ArtifactPreviewCard]) -> (r: Option<&'static str>)
    ensures
        match r {
            Some(s) => cards@.len() == 0 && s@ == ARTIFACTS_EMPTY_STATE@,
            None => cards@.len() > 0,
        },
{
    if cards.len() == 0 {
        Some(ARTIFACTS_EMPTY_STATE)
    } else {
        None
    }
}

/// In-progress rename/edit draft for an artifact.
#[derive(Debug, Clone, PartialEq, Eq)]
pub struct ArtifactEditDraft {
    /// Artifact being edited.
    pub id: String,
    /// Draft title.
    pub title: String,
    /// Draft content.
    pub content: String,
}

/// The char view of an edit draft: `(id, title, content)`.
pub open spec fn artifact_draft_view(d: ArtifactEditDraft) -> (Seq<char>, Seq<char>, Seq<char>) {
    (d.id@, d.title@, d.content@)
}

/// Interaction state for the Artifacts panel (edit / delete confirmation).
#[derive(Debug, Clone, PartialEq, Eq)]
pub struct ArtifactsPanelState {
    confirm_delete_id: Option<String>,
    editing: Option<ArtifactEditDraft>,
}

/// Mathematical view of [`ArtifactsPanelState`].
pub struct ArtifactsPanelView {
    /// Artifact id awaiting delete confirmation.
    pub confirm_delete_id: Option<Seq<char>>,
    /// Current edit draft `(id, title, content)`.
    pub editing: Option<(Seq<char>, Seq<char>, Seq<char>)>,
}

impl View for ArtifactsPanelState {
    type V = ArtifactsPanelView;

    closed spec fn view(&self) -> ArtifactsPanelView {
        ArtifactsPanelView {
            confirm_delete_id: match self.confirm_delete_id {
                Some(s) => Some(s@),
                None => None,
            },
            editing: match self.editing {
                Some(d) => Some(artifact_draft_view(d)),
                None => None,
            },
        }
    }
}

impl ArtifactsPanelState {
    /// No pending delete and no edit in progress.
    pub fn new() -> (s: Self)
        ensures
            s@.confirm_delete_id is None,
            s@.editing is None,
    {
        ArtifactsPanelState { confirm_delete_id: None, editing: None }
    }

    /// Starts a delete confirmation for `id`.
    pub fn request_delete(&mut self, id: &str)
        ensures
            final(self)@.confirm_delete_id == Some(id@),
            final(self)@.editing == old(self)@.editing,
    {
        self.confirm_delete_id = Some(owned(id));
    }

    /// Cancels a pending delete confirmation.
    pub fn cancel_delete(&mut self)
        ensures
            final(self)@.confirm_delete_id is None,
            final(self)@.editing == old(self)@.editing,
    {
        self.confirm_delete_id = None;
    }

    /// Returns the id awaiting delete confirmation, if any.
    pub fn pending_delete_id(&self) -> (r: Option<&str>)
        ensures
            match r {
                Some(s) => self@.confirm_delete_id == Some(s@),
                None => self@.confirm_delete_id is None,
            },
    {
        match &self.confirm_delete_id {
            Some(s) => Some(s.as_str()),
            None => None,
        }
    }

    /// Confirms deletion: returns the id to delete and clears the prompt.
    /// Returns `None` if nothing was pending.
    pub fn confirm_delete(&mut self) -> (r: Option<String>)
        ensures
            match r {
                Some(s) => old(self)@.confirm_delete_id == Some(s@),
                None => old(self)@.confirm_delete_id is None,
            },
            final(self)@.confirm_delete_id is None,
            final(self)@.editing == old(self)@.editing,
    {
        self.confirm_delete_id.take()
    }

    /// Begins editing an artifact with the given title and content drafts.
    pub fn begin_edit(&mut self, id: &str, title: &str, content: &str)
        ensures
            final(self)@.editing == Some((id@, title@, content@)),
            final(self)@.confirm_delete_id == old(self)@.confirm_delete_id,
    {
        self.editing = Some(
            ArtifactEditDraft { id: owned(id), title: owned(title), content: owned(content) },
        );
    }

    /// Returns the current edit draft, if any.
    pub fn editing(&self) -> (r: Option<&ArtifactEditDraft>)
        ensures
            match r {
                Some(d) => self@.editing == Some(artifact_draft_view(*d)),
                None => self@.editing is None,
            },
    {
        match &self.editing {
            Some(d) => Some(d),
            None => None,
        }
    }

    /// Updates the draft title while editing.
    pub fn set_edit_title(&mut self, title: &str)
        ensures
            final(self)@.editing == match old(self)@.editing {
                Some(e) => Some((e.0, title@, e.2)),
                None => None,
            },
            final(self)@.confirm_delete_id == old(self)@.confirm_delete_id,
    {
        match &mut self.editing {
            Some(d) => {
                d.title = owned(title);
            },
            None => {},
        }
    }

    /// Updates the draft content while editing.
    pub fn set_edit_content(&mut self, content: &str)
        ensures
            final(self)@.editing == match old(self)@.editing {
                Some(e) => Some((e.0, e.1, content@)),
                None => None,
            },
            final(self)@.confirm_delete_id == old(self)@.confirm_delete_id,
    {
        match &mut self.editing {
            Some(d) => {
                d.content = owned(content);
            },
            None => {},
        }
    }

    /// Cancels the in-progress edit without saving.
    pub fn cancel_edit(&mut self)
        ensures
            final(self)@.editing is None,
            final(self)@.confirm_delete_id == old(self)@.confirm_delete_id,
    {
        self.editing = None;
    }

    /// Completes the edit: returns the draft to persist and clears editing state.
    pub fn commit_edit(&mut self) -> (r: Option<ArtifactEditDraft>)
        ensures
            match r {
                Some(d) => old(self)@.editing == Some(artifact_draft_view(d)),
                None => old(self)@.editing is None,
            },
            final(self)@.editing is None,
            final(self)@.confirm_delete_id == old(self)@.confirm_delete_id,
    {
        self.editing.take()
    }
}

} // verus!
