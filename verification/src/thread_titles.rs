//! Inline thread rename presentation and title-generation status copy.

use crate::text::{concat3, owned, string_of, trim, trim_str};
use vstd::prelude::*;

verus! {

/// Status hint shown while an extra model request generates a thread title.
pub const TITLE_GENERATING_HINT: &'static str = "Generating title (extra model request)…";

/// Compact sidebar badge when a thread has an active chat generation.
pub const THREAD_GENERATING_BADGE: &'static str = "●";

/// In-progress inline rename draft for a sidebar thread.
#[derive(Debug, Clone, PartialEq, Eq)]
pub struct ThreadRenameDraft {
    /// Thread being renamed.
    pub thread_id: String,
    /// Draft title text.
    pub draft: String,
}

/// The char view of a rename draft: `(thread_id, draft)`.
pub open spec fn rename_draft_view(d: ThreadRenameDraft) -> (Seq<char>, Seq<char>) {
    (d.thread_id@, d.draft@)
}

/// Interaction state for sidebar thread rename.
#[derive(Debug, Clone, PartialEq, Eq)]
pub struct ThreadRenameState {
    editing: Option<ThreadRenameDraft>,
}

impl View for ThreadRenameState {
    type V = Option<(Seq<char>, Seq<char>)>;

    closed spec fn view(&self) -> Option<(Seq<char>, Seq<char>)> {
        match self.editing {
            Some(d) => Some(rename_draft_view(d)),
            None => None,
        }
    }
}

impl ThreadRenameState {
    /// A state with no rename in progress.
    pub fn new() -> (s: Self)
        ensures
            s@ is None,
    {
        ThreadRenameState { editing: None }
    }

    /// Begins inline rename for `thread_id` with the current title as draft.
    pub fn begin_rename(&mut self, thread_id: &str, current_title: &str)
        ensures
            final(self)@ == Some((thread_id@, current_title@)),
    {
        self.editing = Some(
            ThreadRenameDraft { thread_id: owned(thread_id), draft: owned(current_title) },
        );
    }

    /// Returns the active rename draft, if any.
    pub fn editing(&self) -> (r: Option<&ThreadRenameDraft>)
        ensures
            match r {
                Some(d) => self@ == Some(rename_draft_view(*d)),
                None => self@ is None,
            },
    {
        match &self.editing {
            Some(d) => Some(d),
            None => None,
        }
    }

    /// Updates the draft title while editing.
    pub fn update_draft(&mut self, draft: &str)
        ensures
            final(self)@ == match old(self)@ {
                Some(e) => Some((e.0, draft@)),
                None => None,
            },
    {
        match &mut self.editing {
            Some(e) => {
                e.draft = owned(draft);
            },
            None => {},
        }
    }

    /// Cancels rename without persisting.
    pub fn cancel(&mut self)
        ensures
            final(self)@ is None,
    {
        self.editing = None;
    }

    /// Commits the draft when non-empty after trim; leaves editing active on failure.
    pub fn commit(&mut self) -> (r: Option<ThreadRenameDraft>)
        ensures
            match old(self)@ {
                Some(e) => if trim(e.1).len() > 0 {
                    &&& r is Some
                    &&& rename_draft_view(r->0) == (e.0, trim(e.1))
                    &&& final(self)@ is None
                } else {
                    r is None && final(self)@ == old(self)@
                },
                None => r is None && final(self)@ is None,
            },
    {
        let committed = match &self.editing {
            Some(e) => {
                let t = trim_str(e.draft.as_str());
                if t.len() == 0 {
                    return None;
                }
                ThreadRenameDraft { thread_id: e.thread_id.clone(), draft: string_of(t.as_slice()) }
            },
            None => {
                return None;
            },
        };
        self.editing = None;
        Some(committed)
    }
}

/// Label disclosing that title generation uses an extra model request.
pub fn title_generation_status_label(generating: bool) -> (r: Option<&'static str>)
    ensures
        match r {
            Some(s) => generating && s@ == TITLE_GENERATING_HINT@,
            None => !generating,
        },
{
    if generating {
        Some(TITLE_GENERATING_HINT)
    } else {
        None
    }
}

/// Formats a sidebar thread title, marking active generations.
pub fn format_sidebar_thread_title(title: &str, generating: bool) -> (r: String)
    ensures
        r@ == if generating {
            THREAD_GENERATING_BADGE@ + " "@ + title@
        } else {
            title@
        },
{
    if generating {
        concat3(THREAD_GENERATING_BADGE, " ", title)
    } else {
        owned(title)
    }
}

} // verus!
