//! In-theme companion sprite selection.

use vstd::prelude::*;

verus! {

/// Pose shown by the in-theme companion.
#[derive(Clone, Copy, Debug, PartialEq, Eq, Structural)]
pub enum CompanionMood {
    /// Resting pose, with an occasional blink.
    Idle,
    /// Alert pose used when a new chat starts.
    NewChat,
    /// Happy pose held after a message is sent.
    Sent,
}

/// How long a reaction frame stays up before returning to idle, in milliseconds.
pub fn reaction_hold() -> (r: u64)
    ensures
        r == 1400,
{
    1400
}

/// Sprite for `mood` at `elapsed_ms`: idle blinks during the last of every six
/// 2.8 s periods.
pub open spec fn sprite_path(mood: CompanionMood, elapsed_ms: u64) -> Seq<char> {
    match mood {
        CompanionMood::Sent => "companion/sent.svg"@,
        CompanionMood::NewChat => "companion/new-chat.svg"@,
        CompanionMood::Idle => if (elapsed_ms / 2800) % 6 == 5 {
            "companion/idle-1.svg"@
        } else {
            "companion/idle-0.svg"@
        },
    }
}

/// Asset path for `mood` at `elapsed_ms` since the companion started animating.
pub fn companion_sprite(mood: CompanionMood, elapsed_ms: u64) -> (r: &'static str)
    ensures
        r@ == sprite_path(mood, elapsed_ms),
{
    match mood {
        CompanionMood::Sent => "companion/sent.svg",
        CompanionMood::NewChat => "companion/new-chat.svg",
        CompanionMood::Idle => {
            if (elapsed_ms / 2800) % 6 == 5 {
                "companion/idle-1.svg"
            } else {
                "companion/idle-0.svg"
            }
        },
    }
}

} // verus!
