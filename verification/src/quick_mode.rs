//! Quick mode overlay: compact one-shot question/answer surface.
//!
//! The native window wires these into a centered overlay; IPC routes
//! `--quick` to the same state machine.

use crate::text::{string_of, trim, trim_str};
use vstd::prelude::*;

verus! {

/// Lifecycle phase of a quick-mode session.
#[derive(Debug, Clone, PartialEq, Eq)]
pub enum QuickPhase {
    /// User is editing the question (or empty).
    Composing,
    /// Provider stream is in flight.
    Streaming,
    /// Stream finished successfully.
    Complete,
    /// Stream failed.
    Failed {
        /// User-visible failure reason.
        message: String,
    },
}

/// Mathematical view of a [`QuickPhase`].
pub enum QuickPhaseView {
    /// Editing the question.
    Composing,
    /// Stream in flight.
    Streaming,
    /// Stream finished.
    Complete,
    /// Stream failed with the given reason.
    Failed(Seq<char>),
}

impl View for QuickPhase {
    type V = QuickPhaseView;

    open spec fn view(&self) -> QuickPhaseView {
        match self {
            QuickPhase::Composing => QuickPhaseView::Composing,
            QuickPhase::Streaming => QuickPhaseView::Streaming,
            QuickPhase::Complete => QuickPhaseView::Complete,
            QuickPhase::Failed { message } => QuickPhaseView::Failed(message@),
        }
    }
}

/// Events from an ephemeral (non-persisted) quick-mode provider stream.
#[derive(Debug, Clone, PartialEq, Eq)]
pub enum QuickStreamEvent {
    /// Partial answer text.
    Chunk(String),
    /// Stream finished successfully.
    Done,
    /// Stream failed with a user-visible reason.
    Error(String),
}

/// Presentation/controller state for the quick-mode overlay.
#[derive(Debug, Clone, PartialEq, Eq)]
pub struct QuickModeState {
    question: String,
    answer: String,
    phase: QuickPhase,
    saved_thread_id: Option<String>,
    dismissed: bool,
}

/// Mathematical view of a [`QuickModeState`].
pub struct QuickModeView {
    /// Question text.
    pub question: Seq<char>,
    /// Accumulated answer text.
    pub answer: Seq<char>,
    /// Lifecycle phase.
    pub phase: QuickPhaseView,
    /// Thread the exchange was saved to, if any.
    pub saved_thread_id: Option<Seq<char>>,
    /// Whether the overlay was dismissed.
    pub dismissed: bool,
}

/// The char view of an optional string.
pub open spec fn opt_view(o: Option<String>) -> Option<Seq<char>> {
    match o {
        Some(s) => Some(s@),
        None => None,
    }
}

impl View for QuickModeState {
    type V = QuickModeView;

    closed spec fn view(&self) -> QuickModeView {
        QuickModeView {
            question: self.question@,
            answer: self.answer@,
            phase: self.phase@,
            saved_thread_id: opt_view(self.saved_thread_id),
            dismissed: self.dismissed,
        }
    }
}

fn copy_phase(p: &QuickPhase) -> (r: QuickPhase)
    ensures
        r@ == p@,
{
    match p {
        QuickPhase::Composing => QuickPhase::Composing,
        QuickPhase::Streaming => QuickPhase::Streaming,
        QuickPhase::Complete => QuickPhase::Complete,
        QuickPhase::Failed { message } => QuickPhase::Failed { message: message.clone() },
    }
}

impl QuickModeState {
    /// Creates an empty quick-mode session ready for input.
    pub fn new() -> (s: Self)
        ensures
            s@.question == Seq::<char>::empty(),
            s@.answer == Seq::<char>::empty(),
            s@.phase == QuickPhaseView::Composing,
            s@.saved_thread_id is None,
            !s@.dismissed,
    {
        Self {
            question: String::new(),
            answer: String::new(),
            phase: QuickPhase::Composing,
            saved_thread_id: None,
            dismissed: false,
        }
    }

    /// Current lifecycle phase.
    pub fn phase(&self) -> (r: QuickPhase)
        ensures
            r@ == self@.phase,
    {
        copy_phase(&self.phase)
    }

    /// Question text.
    pub fn question(&self) -> (r: &str)
        ensures
            r@ == self@.question,
    {
        self.question.as_str()
    }

    /// Accumulated answer text.
    pub fn answer(&self) -> (r: &str)
        ensures
            r@ == self@.answer,
    {
        self.answer.as_str()
    }

    /// Whether Esc (or equivalent) has dismissed the overlay.
    pub fn is_dismissed(&self) -> (r: bool)
        ensures
            r == self@.dismissed,
    {
        self.dismissed
    }

    /// Thread id after a successful save, if any.
    pub fn saved_thread_id(&self) -> (r: Option<&str>)
        ensures
            match r {
                Some(t) => self@.saved_thread_id == Some(t@),
                None => self@.saved_thread_id is None,
            },
    {
        match &self.saved_thread_id {
            Some(t) => Some(t.as_str()),
            None => None,
        }
    }

    /// Updates the question draft; outside streaming this resets to composing.
    pub fn set_question(&mut self, question: &str)
        ensures
            final(self)@.question == question@,
            final(self)@.dismissed == old(self)@.dismissed,
            old(self)@.phase is Streaming ==> {
                &&& final(self)@.phase == old(self)@.phase
                &&& final(self)@.answer == old(self)@.answer
                &&& final(self)@.saved_thread_id == old(self)@.saved_thread_id
            },
            !(old(self)@.phase is Streaming) ==> {
                &&& final(self)@.phase == QuickPhaseView::Composing
                &&& final(self)@.answer == Seq::<char>::empty()
                &&& final(self)@.saved_thread_id is None
            },
    {
        self.question = String::from_str(question);
        match self.phase {
            QuickPhase::Streaming => {},
            _ => {
                self.phase = QuickPhase::Composing;
                self.answer = String::new();
                self.saved_thread_id = None;
            },
        }
    }

    /// Marks generation as started and clears any prior answer.
    pub fn begin_streaming(&mut self)
        ensures
            final(self)@.phase == QuickPhaseView::Streaming,
            final(self)@.answer == Seq::<char>::empty(),
            final(self)@.saved_thread_id is None,
            final(self)@.question == old(self)@.question,
            final(self)@.dismissed == old(self)@.dismissed,
    {
        self.answer = String::new();
        self.saved_thread_id = None;
        self.phase = QuickPhase::Streaming;
    }

    /// Appends a streamed answer chunk while streaming.
    pub fn append_chunk(&mut self, chunk: &str)
        ensures
            final(self)@.answer == if old(self)@.phase is Streaming {
                old(self)@.answer + chunk@
            } else {
                old(self)@.answer
            },
            final(self)@.phase == old(self)@.phase,
            final(self)@.question == old(self)@.question,
            final(self)@.saved_thread_id == old(self)@.saved_thread_id,
            final(self)@.dismissed == old(self)@.dismissed,
    {
        if let QuickPhase::Streaming = self.phase {
            self.answer.append(chunk);
        }
    }

    /// Marks the stream as successfully complete.
    pub fn finish_streaming(&mut self)
        ensures
            final(self)@.phase == if old(self)@.phase is Streaming {
                QuickPhaseView::Complete
            } else {
                old(self)@.phase
            },
            final(self)@.answer == old(self)@.answer,
            final(self)@.question == old(self)@.question,
            final(self)@.saved_thread_id == old(self)@.saved_thread_id,
            final(self)@.dismissed == old(self)@.dismissed,
    {
        if let QuickPhase::Streaming = self.phase {
            self.phase = QuickPhase::Complete;
        }
    }

    /// Marks the stream as failed with a user-visible reason.
    pub fn fail(&mut self, message: &str)
        ensures
            final(self)@.phase == QuickPhaseView::Failed(message@),
            final(self)@.answer == old(self)@.answer,
            final(self)@.question == old(self)@.question,
            final(self)@.saved_thread_id == old(self)@.saved_thread_id,
            final(self)@.dismissed == old(self)@.dismissed,
    {
        self.phase = QuickPhase::Failed { message: String::from_str(message) };
    }

    /// Applies one ephemeral stream event to this state.
    pub fn apply_stream_event(&mut self, event: QuickStreamEvent)
        ensures
            final(self)@.question == old(self)@.question,
            final(self)@.saved_thread_id == old(self)@.saved_thread_id,
            final(self)@.dismissed == old(self)@.dismissed,
            match event {
                QuickStreamEvent::Chunk(c) => {
                    &&& final(self)@.phase == old(self)@.phase
                    &&& final(self)@.answer == if old(self)@.phase is Streaming {
                        old(self)@.answer + c@
                    } else {
                        old(self)@.answer
                    }
                },
                QuickStreamEvent::Done => {
                    &&& final(self)@.answer == old(self)@.answer
                    &&& final(self)@.phase == if old(self)@.phase is Streaming {
                        QuickPhaseView::Complete
                    } else {
                        old(self)@.phase
                    }
                },
                QuickStreamEvent::Error(m) => {
                    &&& final(self)@.answer == old(self)@.answer
                    &&& final(self)@.phase == QuickPhaseView::Failed(m@)
                },
            },
    {
        match event {
            QuickStreamEvent::Chunk(chunk) => self.append_chunk(chunk.as_str()),
            QuickStreamEvent::Done => self.finish_streaming(),
            QuickStreamEvent::Error(message) => self.fail(message.as_str()),
        }
    }

    /// Dismisses the overlay (Esc).
    pub fn dismiss(&mut self)
        ensures
            final(self)@.dismissed,
            final(self)@.question == old(self)@.question,
            final(self)@.answer == old(self)@.answer,
            final(self)@.phase == old(self)@.phase,
            final(self)@.saved_thread_id == old(self)@.saved_thread_id,
    {
        self.dismissed = true;
    }

    /// Returns the trimmed answer for clipboard copy when one is available.
    pub fn copy_answer(&self) -> (r: Option<String>)
        ensures
            match r {
                Some(a) => a@ == trim(self@.answer) && a@.len() > 0,
                None => trim(self@.answer).len() == 0,
            },
    {
        let a = trim_str(self.answer.as_str());
        if a.len() == 0 {
            None
        } else {
            Some(string_of(a.as_slice()))
        }
    }

    /// Whether the completed exchange can be saved to a thread.
    pub fn can_save(&self) -> (r: bool)
        ensures
            r == (self@.phase is Complete && trim(self@.question).len() > 0 && trim(
                self@.answer,
            ).len() > 0),
    {
        match self.phase {
            QuickPhase::Complete => {
                trim_str(self.question.as_str()).len() > 0 && trim_str(self.answer.as_str()).len()
                    > 0
            },
            _ => false,
        }
    }

    /// Records that the exchange was persisted under `thread_id`.
    pub fn mark_saved(&mut self, thread_id: &str)
        ensures
            final(self)@.saved_thread_id == Some(thread_id@),
            final(self)@.question == old(self)@.question,
            final(self)@.answer == old(self)@.answer,
            final(self)@.phase == old(self)@.phase,
            final(self)@.dismissed == old(self)@.dismissed,
    {
        self.saved_thread_id = Some(String::from_str(thread_id));
    }

    /// Whether the saved thread can be opened in the main window.
    pub fn can_open_in_main(&self) -> (r: bool)
        ensures
            r == self@.saved_thread_id is Some,
    {
        self.saved_thread_id.is_some()
    }

    /// Whether Enter should submit the question for generation.
    pub fn can_submit(&self) -> (r: bool)
        ensures
            r == (self@.phase is Composing && trim(self@.question).len() > 0),
    {
        match self.phase {
            QuickPhase::Composing => trim_str(self.question.as_str()).len() > 0,
            _ => false,
        }
    }
}

/// Label for the copy-answer action.
pub fn copy_answer_label() -> (r: &'static str)
    ensures
        r@ == "Copy"@,
{
    "Copy"
}

/// Label for saving the exchange into a chat thread.
pub fn save_to_thread_label() -> (r: &'static str)
    ensures
        r@ == "Save to thread"@,
{
    "Save to thread"
}

/// Label for appending the exchange to the currently selected main-window thread.
pub fn save_to_current_label() -> (r: &'static str)
    ensures
        r@ == "Save to current"@,
{
    "Save to current"
}

/// Label for opening the saved thread in the main Ronin window.
pub fn open_in_main_label() -> (r: &'static str)
    ensures
        r@ == "Open in Ronin"@,
{
    "Open in Ronin"
}

/// Footer hint for dismissing the overlay.
pub fn dismiss_hint() -> (r: &'static str)
    ensures
        r@ == "Esc to dismiss"@,
{
    "Esc to dismiss"
}

/// Placeholder shown in the empty question field.
pub fn question_placeholder() -> (r: &'static str)
    ensures
        r@ == "Ask Ronin…"@,
{
    "Ask Ronin…"
}

/// Title shown in the quick overlay chrome.
pub fn quick_overlay_title() -> (r: &'static str)
    ensures
        r@ == "Quick"@,
{
    "Quick"
}

} // verus!
