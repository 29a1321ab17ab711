//! Message edit drafts and branch navigation presentation labels.

use crate::text::{dec, fmt_usize, owned, string_of, trim, trim_str};
use vstd::prelude::*;

verus! {

/// Formats a 0-based branch index for the message chrome (`1 / N`).
pub fn branch_nav_label(selected_index: usize, total: usize) -> (r: String)
    ensures
        r@ == dec(
            if selected_index < usize::MAX {
                (selected_index + 1) as nat
            } else {
                selected_index as nat
            },
        ) + " / "@ + dec(
            if total > 1 {
                total as nat
            } else {
                1
            },
        ),
{
    let shown = if selected_index < usize::MAX {
        selected_index + 1
    } else {
        selected_index
    };
    let count = if total > 1 {
        total
    } else {
        1
    };
    let mut r = fmt_usize(shown);
    r.append(" / ");
    let c = fmt_usize(count);
    r.append(c.as_str());
    r
}

/// In-progress edit of a previously sent user message.
#[derive(Debug, Clone, PartialEq, Eq)]
pub struct MessageEditDraft {
    /// Message being edited.
    pub message_id: String,
    /// Draft replacement content.
    pub draft: String,
}

/// The char view of an edit draft: `(message_id, draft)`.
pub open spec fn edit_draft_view(d: MessageEditDraft) -> (Seq<char>, Seq<char>) {
    (d.message_id@, d.draft@)
}

/// UI state for post-send message editing.
#[derive(Debug, Clone, PartialEq, Eq)]
pub struct MessageEditState {
    editing: Option<MessageEditDraft>,
}

impl View for MessageEditState {
    type V = Option<(Seq<char>, Seq<char>)>;

    closed spec fn view(&self) -> Option<(Seq<char>, Seq<char>)> {
        match self.editing {
            Some(d) => Some(edit_draft_view(d)),
            None => None,
        }
    }
}

impl MessageEditState {
    /// A state with no edit in progress.
    pub fn new() -> (s: Self)
        ensures
            s@ is None,
    {
        MessageEditState { editing: None }
    }

    /// Starts editing `message_id` with the current content as the draft.
    pub fn begin_edit(&mut self, message_id: &str, current: &str)
        ensures
            final(self)@ == Some((message_id@, current@)),
    {
        self.editing = Some(MessageEditDraft { message_id: owned(message_id), draft: owned(current) });
    }

    /// Active edit draft, if any.
    pub fn editing(&self) -> (r: Option<&MessageEditDraft>)
        ensures
            match r {
                Some(d) => self@ == Some(edit_draft_view(*d)),
                None => self@ is None,
            },
    {
        match &self.editing {
            Some(d) => Some(d),
            None => None,
        }
    }

    /// Updates the draft text.
    pub fn update_draft(&mut self, draft: &str)
        ensures
            final(self)@ == match old(self)@ {
                Some(e) => Some((e.0, draft@)),
                None => None,
            },
    {
        match &mut self.editing {
            Some(e) => {
                e.draft = owned(draft);
            },
            None => {},
        }
    }

    /// Cancels without committing.
    pub fn cancel(&mut self)
        ensures
            final(self)@ is None,
    {
        self.editing = None;
    }
}

/// Commits a non-empty trimmed draft and clears editing state.
pub fn edit_draft_commit(state: &mut MessageEditState) -> (r: Option<MessageEditDraft>)
    ensures
        match old(state)@ {
            Some(e) => if trim(e.1).len() > 0 {
                &&& r is Some
                &&& edit_draft_view(r->0) == (e.0, trim(e.1))
                &&& final(state)@ is None
            } else {
                r is None && final(state)@ == old(state)@
            },
            None => r is None && final(state)@ is None,
        },
{
    let committed = match &state.editing {
        Some(e) => {
            let t = trim_str(e.draft.as_str());
            if t.len() == 0 {
                return None;
            }
            MessageEditDraft { message_id: e.message_id.clone(), draft: string_of(t.as_slice()) }
        },
        None => {
            return None;
        },
    };
    state.editing = None;
    Some(committed)
}

} // verus!
