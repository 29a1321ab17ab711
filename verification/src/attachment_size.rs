//! Attachment size warnings before send.

use crate::context_indicator::estimate_tokens_from_chars;
use crate::text::{dec, fmt_usize, owned};
use vstd::prelude::*;

verus! {

/// Snapshot describing an attachment size warning.
#[derive(Debug, Clone, PartialEq, Eq)]
pub struct AttachmentSizeWarning {
    /// Total attachment context characters.
    pub total_chars: usize,
    /// Approximate tokens (`ceil(chars / 4)`).
    pub estimated_tokens: usize,
    /// Configured warning threshold in characters.
    pub threshold_chars: usize,
    /// User-visible warning copy.
    pub message: String,
}

/// Mathematical view of an [`AttachmentSizeWarning`].
pub struct WarningView {
    /// Total attachment characters.
    pub total_chars: usize,
    /// Approximate tokens.
    pub estimated_tokens: usize,
    /// Warning threshold in characters.
    pub threshold_chars: usize,
    /// Warning text.
    pub message: Seq<char>,
}

impl View for AttachmentSizeWarning {
    type V = WarningView;

    open spec fn view(&self) -> WarningView {
        WarningView {
            total_chars: self.total_chars,
            estimated_tokens: self.estimated_tokens,
            threshold_chars: self.threshold_chars,
            message: self.message@,
        }
    }
}

/// `ceil(chars / 4)`.
pub open spec fn tokens_for(chars: nat) -> nat {
    (chars + 3) / 4
}

/// Warning text for `total` characters against a `threshold`.
pub open spec fn warning_text(total: nat, threshold: nat) -> Seq<char> {
    "Attachments are large (~"@ + dec(tokens_for(total)) + " tokens / "@ + dec(total)
        + " chars; warning at ~"@ + dec(tokens_for(threshold))
        + " tokens). Proceed, or remove attachments to free context."@
}

/// The warning for `total` characters: none at or under the threshold.
pub open spec fn warning_for(total: usize, threshold: usize) -> Option<WarningView> {
    if total <= threshold {
        None
    } else {
        Some(
            WarningView {
                total_chars: total,
                estimated_tokens: tokens_for(total as nat) as usize,
                threshold_chars: threshold,
                message: warning_text(total as nat, threshold as nat),
            },
        )
    }
}

/// Views of an optional warning.
pub open spec fn opt_warning(w: Option<AttachmentSizeWarning>) -> Option<WarningView> {
    match w {
        Some(x) => Some(x@),
        None => None,
    }
}

/// Builds a warning when `total_chars` exceeds `threshold_chars`.
pub fn attachment_size_warning(total_chars: usize, threshold_chars: usize) -> (r: Option<
    AttachmentSizeWarning,
>)
    ensures
        opt_warning(r) == warning_for(total_chars, threshold_chars),
{
    if total_chars <= threshold_chars {
        return None;
    }
    let estimated_tokens = estimate_tokens_from_chars(total_chars);
    let threshold_tokens = estimate_tokens_from_chars(threshold_chars);
    let mut message = owned("Attachments are large (~");
    let t = fmt_usize(estimated_tokens);
    message.append(t.as_str());
    message.append(" tokens / ");
    let c = fmt_usize(total_chars);
    message.append(c.as_str());
    message.append(" chars; warning at ~");
    let h = fmt_usize(threshold_tokens);
    message.append(h.as_str());
    message.append(" tokens). Proceed, or remove attachments to free context.");
    Some(AttachmentSizeWarning { total_chars, estimated_tokens, threshold_chars, message })
}

/// UI state for size warning acknowledge / clear flow.
#[derive(Debug, Clone, PartialEq, Eq)]
pub struct AttachmentSizeWarnState {
    warning: Option<AttachmentSizeWarning>,
    acknowledged: bool,
}

/// Mathematical view of [`AttachmentSizeWarnState`].
pub struct WarnStateView {
    /// Current warning.
    pub warning: Option<WarningView>,
    /// Whether the user chose to proceed.
    pub acknowledged: bool,
}

impl View for AttachmentSizeWarnState {
    type V = WarnStateView;

    closed spec fn view(&self) -> WarnStateView {
        WarnStateView { warning: opt_warning(self.warning), acknowledged: self.acknowledged }
    }
}

/// Total characters of an optional warning.
pub open spec fn warned_total(w: Option<WarningView>) -> Option<usize> {
    match w {
        Some(x) => Some(x.total_chars),
        None => None,
    }
}

/// State after re-evaluating with `total` characters: the acknowledgement is
/// dropped whenever the warned total changes.
pub open spec fn evaluated(s: WarnStateView, total: usize, threshold: usize) -> WarnStateView {
    let next = warning_for(total, threshold);
    WarnStateView {
        warning: next,
        acknowledged: if warned_total(next) != warned_total(s.warning) {
            false
        } else {
            s.acknowledged
        },
    }
}

/// Whether send is blocked in state `s`.
pub open spec fn blocks_send(s: WarnStateView) -> bool {
    s.warning is Some && !s.acknowledged
}

impl Default for AttachmentSizeWarnState {
    fn default() -> (s: Self)
        ensures
            s@ == (WarnStateView { warning: None, acknowledged: false }),
    {
        AttachmentSizeWarnState { warning: None, acknowledged: false }
    }
}

impl AttachmentSizeWarnState {
    /// Recomputes the warning from the pending drafts' total character count.
    pub fn evaluate(&mut self, total_chars: usize, threshold_chars: usize)
        ensures
            final(self)@ == evaluated(old(self)@, total_chars, threshold_chars),
    {
        let next = attachment_size_warning(total_chars, threshold_chars);
        let next_total: Option<usize> = match &next {
            Some(w) => Some(w.total_chars),
            None => None,
        };
        let cur_total: Option<usize> = match &self.warning {
            Some(w) => Some(w.total_chars),
            None => None,
        };
        if next_total != cur_total {
            self.acknowledged = false;
        }
        self.warning = next;
    }

    /// Current warning, if any.
    pub fn warning(&self) -> (r: Option<&AttachmentSizeWarning>)
        ensures
            match r {
                Some(w) => self@.warning == Some(w@),
                None => self@.warning is None,
            },
    {
        match &self.warning {
            Some(w) => Some(w),
            None => None,
        }
    }

    /// Whether send should be blocked until the user proceeds or removes attachments.
    pub fn should_block_send(&self) -> (r: bool)
        ensures
            r == blocks_send(self@),
    {
        self.warning.is_some() && !self.acknowledged
    }

    /// User chose to proceed despite the warning.
    pub fn acknowledge_and_proceed(&mut self)
        ensures
            final(self)@ == (WarnStateView {
                acknowledged: old(self)@.acknowledged || old(self)@.warning is Some,
                ..old(self)@
            }),
    {
        if self.warning.is_some() {
            self.acknowledged = true;
        }
    }

    /// Clears warning state (e.g. after attachments were removed).
    pub fn clear(&mut self)
        ensures
            final(self)@ == (WarnStateView { warning: None, acknowledged: false }),
    {
        self.warning = None;
        self.acknowledged = false;
    }
}

/// Acknowledged state after proceeding.
pub open spec fn acknowledged(s: WarnStateView) -> WarnStateView {
    WarnStateView { acknowledged: s.acknowledged || s.warning is Some, ..s }
}

/// Once the user proceeds, re-evaluating the same attachments does not block
/// send again; a different total over the threshold blocks it again.
pub proof fn law_acknowledgement_survives_same_total(
    s0: WarnStateView,
    total: usize,
    other: usize,
    threshold: usize,
)
    requires
        other != total,
        other > threshold,
    ensures
        !blocks_send(evaluated(acknowledged(evaluated(s0, total, threshold)), total, threshold)),
        blocks_send(evaluated(acknowledged(evaluated(s0, total, threshold)), other, threshold)),
{
}

} // verus!
